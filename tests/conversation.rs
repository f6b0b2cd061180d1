use clewdr_format::auth::{verdict, RequireAdminAuth, RequireBearerAuth, RequireXApiKeyAuth};
use clewdr_format::claude::{
    clean_cache_control_from_messages, CacheControlEphemeral, CacheControlType, ContentBlock,
    ContentBlockDelta, CreateMessageParams, CreateMessageResponse, Message, MessageContent,
    RequiredMessageParams, Role, StopReason, StreamEvent, Thinking, ToolChoice, ToolChoiceObject,
    ToolChoiceSimple, Usage,
};
use clewdr_format::claude2oai::{
    build_event, build_tool_call_event, transforms_json, EventContent, StreamOutput,
    StreamTransducer,
};
use clewdr_format::json::{JsonMember, JsonValue};
use clewdr_format::json_text::to_json_string;
use clewdr_format::oai::{
    convert_oai_message, tool_from_oai, Effort, OaiCreateMessageParams, OaiMessage,
    OaiMessageContent, OaiRole, OaiTool, OaiToolCall, OaiToolCallFunction, OaiToolFunction,
};
use clewdr_format::reason::{Reason, UselessCookie};
use clewdr_format::request::{
    code_preprocess, format_of_path, normalize_request, sanitize_messages, web_preprocess,
    ClaudeApiFormat, ClaudeContext, ClewdrError,
};
use clewdr_format::signature_store::{get_thought_signature, SignatureStore};
use clewdr_format::thinking_utils::{
    analyze_conversation_state, extract_signatures, has_valid_signature_for_function_calls,
    message_has_tool_result, message_has_tool_use, message_has_valid_thinking,
    needs_thinking_recovery, should_disable_thinking_due_to_history, strip_invalid_thinking_blocks,
};
use clewdr_format::web_search::{
    annotations_to_web_search_content, citations_to_annotations,
    extract_citations_from_search_result, extract_citations_from_tool_result,
    format_citations_as_markdown, merge_citations_into_text, Citation,
};
use clewdr_format::web_transform::{merge_messages, merge_system, PromptConfig};

fn jstr(x: &str) -> JsonValue {
    JsonValue::Str(x.to_string())
}

fn jobj(ms: Vec<(&str, JsonValue)>) -> JsonValue {
    JsonValue::Object(ms.into_iter().map(|(k, v)| JsonMember { key: k.to_string(), value: v }).collect())
}

fn field<'a>(v: &'a JsonValue, k: &str) -> &'a JsonValue {
    v.get(k).unwrap_or_else(|| panic!("missing member {k}"))
}

fn item(v: &JsonValue, i: usize) -> &JsonValue {
    match v {
        JsonValue::Array(items) => &items[i],
        _ => panic!("not an array"),
    }
}

fn create_text_message(role: Role, text: &str) -> Message {
    Message { role, content: MessageContent::Text { content: text.to_string() } }
}

fn create_blocks_message(role: Role, blocks: Vec<ContentBlock>) -> Message {
    Message { role, content: MessageContent::Blocks { content: blocks } }
}

fn thinking(text: &str, sig: Option<&str>) -> ContentBlock {
    ContentBlock::Thinking { thinking: text.to_string(), signature: sig.map(|s| s.to_string()), cache_control: None }
}

fn tool_use(id: &str, name: &str, input: JsonValue) -> ContentBlock {
    ContentBlock::ToolUse { id: id.to_string(), name: name.to_string(), input, signature: None, cache_control: None }
}

fn citation(url: &str, title: &str, snippet: &str) -> Citation {
    Citation { url: url.to_string(), title: title.to_string(), snippet: snippet.to_string(), start_index: None, end_index: None }
}

fn response(content: Vec<ContentBlock>, stop_reason: Option<StopReason>, usage: Option<Usage>) -> CreateMessageResponse {
    CreateMessageResponse {
        content,
        id: "msg_123".to_string(),
        model: "opus-3".to_string(),
        role: Role::Assistant,
        stop_reason,
        stop_sequence: None,
        type_: "message".to_string(),
        usage,
    }
}

fn params(messages: Vec<Message>) -> CreateMessageParams {
    CreateMessageParams::new(RequiredMessageParams { model: "sonnet-4-5-20250929".to_string(), messages, max_tokens: 1024 })
}

#[test]
fn test_message_has_valid_thinking() {
    let valid = create_blocks_message(Role::Assistant, vec![thinking("thinking...", Some("valid_signature_12345"))]);
    assert!(message_has_valid_thinking(&valid));
    let invalid_short = create_blocks_message(Role::Assistant, vec![thinking("thinking...", Some("short"))]);
    assert!(!message_has_valid_thinking(&invalid_short));
    let no_signature = create_blocks_message(Role::Assistant, vec![thinking("thinking...", None)]);
    assert!(!message_has_valid_thinking(&no_signature));
    let text_only = create_text_message(Role::Assistant, "hello");
    assert!(!message_has_valid_thinking(&text_only));
}

#[test]
fn test_message_has_tool_use() {
    let with_tool = create_blocks_message(Role::Assistant, vec![tool_use("123", "test_tool", jobj(vec![]))]);
    assert!(message_has_tool_use(&with_tool));
    let without_tool = create_blocks_message(Role::Assistant, vec![ContentBlock::text("hello")]);
    assert!(!message_has_tool_use(&without_tool));
}

#[test]
fn test_analyze_conversation_state_tool_loop() {
    let messages = vec![
        create_text_message(Role::User, "hello"),
        create_blocks_message(Role::Assistant, vec![tool_use("123", "test", jobj(vec![]))]),
        create_blocks_message(
            Role::User,
            vec![ContentBlock::ToolResult { tool_use_id: "123".to_string(), content: jstr("result"), is_error: None, cache_control: None }],
        ),
    ];
    let state = analyze_conversation_state(&messages);
    assert!(state.in_tool_loop);
    assert!(!state.interrupted_tool);
    assert_eq!(state.tool_result_count, 1);
    assert!(message_has_tool_result(&messages[2]));
}

#[test]
fn test_analyze_conversation_state_interrupted() {
    let messages = vec![
        create_text_message(Role::User, "hello"),
        create_blocks_message(Role::Assistant, vec![tool_use("123", "test", jobj(vec![]))]),
    ];
    let state = analyze_conversation_state(&messages);
    assert!(!state.in_tool_loop);
    assert!(state.interrupted_tool);
    assert!(needs_thinking_recovery(&messages));
}

#[test]
fn test_should_disable_thinking_due_to_history() {
    let messages_no_thinking = vec![
        create_text_message(Role::User, "hello"),
        create_blocks_message(Role::Assistant, vec![tool_use("123", "test", jobj(vec![]))]),
    ];
    assert!(should_disable_thinking_due_to_history(&messages_no_thinking));
    let messages_with_thinking = vec![
        create_text_message(Role::User, "hello"),
        create_blocks_message(
            Role::Assistant,
            vec![thinking("thinking...", Some("valid_signature_12345")), tool_use("123", "test", jobj(vec![]))],
        ),
    ];
    assert!(!should_disable_thinking_due_to_history(&messages_with_thinking));
}

#[test]
fn test_has_valid_signature_for_function_calls() {
    let messages = vec![create_blocks_message(Role::Assistant, vec![thinking("test", Some("valid_signature_12345"))])];
    assert!(has_valid_signature_for_function_calls(&messages, &None));
    assert!(has_valid_signature_for_function_calls(&[], &Some("global_signature_12345".to_string())));
    assert!(!has_valid_signature_for_function_calls(&[], &None));
    assert!(!has_valid_signature_for_function_calls(&[], &Some("short".to_string())));
}

#[test]
fn test_strip_invalid_thinking_blocks() {
    let mut messages = vec![create_blocks_message(
        Role::Assistant,
        vec![thinking("valid", Some("valid_signature_12345")), thinking("invalid", Some("short")), ContentBlock::text("hello")],
    )];
    strip_invalid_thinking_blocks(&mut messages);
    if let MessageContent::Blocks { content } = &messages[0].content {
        assert_eq!(content.len(), 2);
        assert!(matches!(content[0], ContentBlock::Thinking { .. }));
        assert!(matches!(content[1], ContentBlock::Text { .. }));
    } else {
        panic!("Expected Blocks content");
    }
}

#[test]
fn test_extract_signatures() {
    let messages = vec![
        create_text_message(Role::User, "hello"),
        create_blocks_message(Role::Assistant, vec![thinking("test", Some("signature_one_12345"))]),
        create_text_message(Role::User, "continue"),
        create_blocks_message(Role::Assistant, vec![thinking("more", Some("signature_two_12345"))]),
    ];
    let sigs = extract_signatures(&messages);
    assert_eq!(sigs.len(), 2);
    assert_eq!(sigs[0].0, "signature_one_12345");
    assert_eq!(sigs[0].1, 1);
    assert_eq!(sigs[1].0, "signature_two_12345");
    assert_eq!(sigs[1].1, 3);
}

#[test]
fn strip_leaves_user_thinking_alone() {
    let mut messages = vec![create_blocks_message(Role::User, vec![thinking("x", None)])];
    let before = messages.clone();
    strip_invalid_thinking_blocks(&mut messages);
    assert_eq!(messages, before);
}

#[test]
fn test_extract_citations_from_tool_result() {
    let data = jobj(vec![(
        "content",
        JsonValue::Array(vec![
            jobj(vec![
                ("type", jstr("web_search_result")),
                ("url", jstr("https://example.com")),
                ("title", jstr("Example Site")),
                ("snippet", jstr("This is an example")),
            ]),
            jobj(vec![
                ("type", jstr("web_search_result")),
                ("url", jstr("https://test.com")),
                ("title", jstr("Test Site")),
                ("encrypted_content", jstr("Encrypted content here")),
            ]),
        ]),
    )]);
    let citations = extract_citations_from_tool_result(&data);
    assert_eq!(citations.len(), 2);
    assert_eq!(citations[0].url, "https://example.com");
    assert_eq!(citations[0].title, "Example Site");
    assert_eq!(citations[0].snippet, "This is an example");
    assert_eq!(citations[1].snippet, "Encrypted content here");
}

#[test]
fn test_extract_citations_from_results_array() {
    let data = jobj(vec![(
        "results",
        JsonValue::Array(vec![jobj(vec![
            ("url", jstr("https://example.com")),
            ("title", jstr("Example")),
            ("snippet", jstr("Description")),
        ])]),
    )]);
    let citations = extract_citations_from_tool_result(&data);
    assert_eq!(citations.len(), 1);
    assert_eq!(citations[0].url, "https://example.com");
}

#[test]
fn test_extract_citations_from_search_result() {
    let data = jobj(vec![
        ("source", jobj(vec![("url", jstr("https://example.com")), ("title", jstr("Example"))])),
        (
            "content",
            JsonValue::Array(vec![jobj(vec![("text", jstr("First paragraph"))]), jobj(vec![("text", jstr("Second paragraph"))])]),
        ),
    ]);
    let citations = extract_citations_from_search_result(&data);
    assert_eq!(citations.len(), 1);
    assert_eq!(citations[0].url, "https://example.com");
    assert!(citations[0].snippet.contains("First paragraph"));
    assert!(citations[0].snippet.contains("Second paragraph"));
    assert_eq!(citations[0].snippet, "First paragraph\nSecond paragraph");
}

#[test]
fn test_citations_to_annotations() {
    let citations = vec![Citation {
        url: "https://example.com".to_string(),
        title: "Example".to_string(),
        snippet: "Snippet".to_string(),
        start_index: Some(10),
        end_index: Some(20),
    }];
    let annotations = citations_to_annotations(&citations);
    assert_eq!(annotations.len(), 1);
    assert_eq!(field(&annotations[0], "type"), &jstr("url_citation"));
    assert_eq!(field(field(&annotations[0], "url_citation"), "url"), &jstr("https://example.com"));
    assert_eq!(field(field(&annotations[0], "url_citation"), "start_index"), &JsonValue::Number("10".to_string()));
}

#[test]
fn test_annotations_to_web_search_content() {
    let annotations = vec![jobj(vec![
        ("type", jstr("url_citation")),
        (
            "url_citation",
            jobj(vec![("url", jstr("https://example.com")), ("title", jstr("Example")), ("content", jstr("Snippet"))]),
        ),
    ])];
    let content = annotations_to_web_search_content(&annotations);
    assert_eq!(content.len(), 1);
    assert_eq!(field(&content[0], "type"), &jstr("web_search_result"));
    assert_eq!(field(&content[0], "url"), &jstr("https://example.com"));
}

#[test]
fn test_format_citations_as_markdown() {
    let citations = vec![citation("https://example.com", "Example Site", "This is a test")];
    let md = format_citations_as_markdown(&citations, Some("test query"));
    assert!(md.contains("🔍 已为您搜索："));
    assert!(md.contains("test query"));
    assert!(md.contains("[Example Site](https://example.com)"));
    assert!(md.contains("This is a test"));
}

#[test]
fn test_merge_citations_into_text() {
    let text = "Here is my response.";
    let citations = vec![citation("https://example.com", "Source", "Info")];
    let merged = merge_citations_into_text(text, &citations, None);
    assert!(merged.starts_with("Here is my response."));
    assert!(merged.contains("📚 来源："));
}

#[test]
fn test_empty_citations() {
    let citations: Vec<Citation> = vec![];
    let md = format_citations_as_markdown(&citations, None);
    assert!(md.is_empty());
    let merged = merge_citations_into_text("text", &citations, None);
    assert_eq!(merged, "text");
}

#[test]
fn markdown_layout_is_exact() {
    let long = "x".repeat(205);
    let citations = vec![citation("u1", "t1", "line\nbreak"), citation("u2", "t2", ""), citation("u3", "t3", &long)];
    let md = format_citations_as_markdown(&citations, Some("q"));
    let expected = format!(
        "\n\n---\n**🔍 已为您搜索：** q\n\n**📚 来源：**\n1. [t1](u1)\n   > line break\n2. [t2](u2)\n3. [t3](u3)\n   > {}\n",
        "x".repeat(200)
    );
    assert_eq!(md, expected);
}

#[test]
fn test_transforms_json_basic() {
    let mut store = SignatureStore::new();
    let input = response(vec![ContentBlock::text("Hello, world!")], Some(StopReason::EndTurn), Some(Usage { input_tokens: 10, output_tokens: 5 }));
    let result = transforms_json(input, &mut store, 1700000000);
    assert_eq!(field(&result, "id"), &jstr("msg_123"));
    let choice = item(field(&result, "choices"), 0);
    assert_eq!(field(field(choice, "message"), "content"), &jstr("Hello, world!"));
    assert_eq!(field(choice, "finish_reason"), &jstr("stop"));
    let usage = field(&result, "usage");
    assert_eq!(field(usage, "prompt_tokens"), &JsonValue::Number("10".to_string()));
    assert_eq!(field(usage, "completion_tokens"), &JsonValue::Number("5".to_string()));
    assert_eq!(field(usage, "total_tokens"), &JsonValue::Number("15".to_string()));
    assert_eq!(field(field(choice, "message"), "role"), &jstr("assistant"));
}

#[test]
fn test_transforms_json_with_tool_calls() {
    let mut store = SignatureStore::new();
    let input = response(
        vec![tool_use("tool_123", "Grep", jobj(vec![("query", jstr("search pattern"))]))],
        Some(StopReason::ToolUse),
        None,
    );
    let result = transforms_json(input, &mut store, 0);
    let choice = item(field(&result, "choices"), 0);
    assert_eq!(field(choice, "finish_reason"), &jstr("tool_calls"));
    assert!(matches!(field(field(choice, "message"), "tool_calls"), JsonValue::Array(_)));
    let tool_call = item(field(field(choice, "message"), "tool_calls"), 0);
    assert_eq!(field(tool_call, "id"), &jstr("tool_123"));
    assert_eq!(field(field(tool_call, "function"), "name"), &jstr("Grep"));
    let args_text = field(field(tool_call, "function"), "arguments").as_str().unwrap();
    let args: serde_json::Value = serde_json::from_str(args_text).unwrap();
    assert!(args.get("pattern").is_some());
    assert!(args.get("query").is_none());
}

#[test]
fn test_stop_reason_mapping() {
    let test_cases = vec![
        (Some(StopReason::EndTurn), "stop"),
        (Some(StopReason::MaxTokens), "length"),
        (Some(StopReason::StopSequence), "stop"),
        (Some(StopReason::ToolUse), "tool_calls"),
        (Some(StopReason::Refusal), "content_filter"),
        (None, "stop"),
    ];
    for (stop_reason, expected) in test_cases {
        let mut store = SignatureStore::new();
        let result = transforms_json(response(vec![], stop_reason, None), &mut store, 0);
        assert_eq!(field(item(field(&result, "choices"), 0), "finish_reason"), &jstr(expected), "Failed for stop_reason: {:?}", stop_reason);
    }
}

#[test]
fn tool_use_response_has_null_content_and_exact_arguments() {
    let mut store = SignatureStore::new();
    let input = response(
        vec![tool_use("tool_123", "Grep", jobj(vec![("query", jstr("search pattern")), ("path", jstr("/some/path"))]))],
        Some(StopReason::ToolUse),
        None,
    );
    let result = transforms_json(input, &mut store, 0);
    let message = field(item(field(&result, "choices"), 0), "message");
    assert_eq!(field(message, "content"), &JsonValue::Null);
    let call = item(field(message, "tool_calls"), 0);
    assert_eq!(
        to_json_string(call),
        r#"{"id":"tool_123","type":"function","function":{"name":"Grep","arguments":"{\"pattern\":\"search pattern\",\"path\":\"/some/path\"}"}}"#
    );
    assert_eq!(field(&result, "usage"), &JsonValue::Null);
}

#[test]
fn response_signatures_reach_the_slot_and_citations_the_text() {
    let mut store = SignatureStore::new();
    let search = jobj(vec![(
        "content",
        JsonValue::Array(vec![jobj(vec![("type", jstr("web_search_result")), ("url", jstr("https://a.b")), ("title", jstr("A")), ("snippet", jstr("s"))])]),
    )]);
    let input = response(
        vec![
            thinking("hidden", Some("thinking_signature_1")),
            ContentBlock::text("Answer"),
            ContentBlock::WebSearchToolResult { data: search },
        ],
        Some(StopReason::EndTurn),
        None,
    );
    let result = transforms_json(input, &mut store, 0);
    assert_eq!(get_thought_signature(&store), Some("thinking_signature_1".to_string()));
    let message = field(item(field(&result, "choices"), 0), "message");
    let content = field(message, "content").as_str().unwrap().to_string();
    assert!(content.starts_with("Answer\n\n---\n**📚 来源：**\n1. [A](https://a.b)\n"));
    assert!(!content.contains("hidden"));
    assert_eq!(field(item(field(message, "annotations"), 0), "type"), &jstr("url_citation"));
}

fn stream_event(t: &mut StreamTransducer, store: &mut SignatureStore, e: StreamEvent) -> StreamOutput {
    t.on_event(e, store)
}

#[test]
fn streaming_text_becomes_content_deltas() {
    let mut t = StreamTransducer::new();
    let mut store = SignatureStore::new();
    let start = stream_event(&mut t, &mut store, StreamEvent::ContentBlockStart { index: 0, content_block: ContentBlock::text("") });
    assert!(matches!(start, StreamOutput::Nothing));
    let mut frames = vec![];
    for text in ["Hello", ", world!"] {
        match stream_event(&mut t, &mut store, StreamEvent::ContentBlockDelta { index: 0, delta: ContentBlockDelta::TextDelta { text: text.to_string() } }) {
            StreamOutput::Event(e) => frames.push(build_event(&e)),
            _ => panic!("expected a frame"),
        }
    }
    assert!(matches!(stream_event(&mut t, &mut store, StreamEvent::ContentBlockStop { index: 0 }), StreamOutput::Nothing));
    assert_eq!(frames, vec![r#"{"choices":[{"delta":{"content":"Hello"}}]}"#.to_string(), r#"{"choices":[{"delta":{"content":", world!"}}]}"#.to_string()]);
}

#[test]
fn streaming_tool_call_is_reassembled_and_remapped() {
    let mut t = StreamTransducer::new();
    let mut store = SignatureStore::new();
    stream_event(&mut t, &mut store, StreamEvent::ContentBlockStart { index: 0, content_block: tool_use("t1", "Read", jobj(vec![])) });
    for part in ["{\"path\":", "\"/f.txt\"}"] {
        let out = stream_event(&mut t, &mut store, StreamEvent::ContentBlockDelta { index: 0, delta: ContentBlockDelta::InputJsonDelta { partial_json: part.to_string() } });
        assert!(matches!(out, StreamOutput::Nothing));
    }
    let StreamOutput::ToolCall(call) = stream_event(&mut t, &mut store, StreamEvent::ContentBlockStop { index: 0 }) else { panic!("expected a tool call") };
    assert_eq!(call.index, 0);
    assert_eq!(call.arguments, "{\"path\":\"/f.txt\"}");
    let parsed = Some(jobj(vec![("path", jstr("/f.txt"))]));
    let frame = build_event(&build_tool_call_event(&call, parsed));
    assert_eq!(
        frame,
        r#"{"choices":[{"delta":{"tool_calls":[{"index":0,"id":"t1","type":"function","function":{"name":"Read","arguments":"{\"file_path\":\"/f.txt\"}"}}]}}]}"#
    );
}

#[test]
fn streaming_tool_indexes_start_at_zero_and_increase() {
    let mut t = StreamTransducer::new();
    let mut store = SignatureStore::new();
    let mut seen = vec![];
    for block in [3usize, 1, 7] {
        stream_event(&mut t, &mut store, StreamEvent::ContentBlockStart { index: block, content_block: tool_use("id", "Glob", jobj(vec![])) });
    }
    for block in [1usize, 7, 3, 3] {
        if let StreamOutput::ToolCall(call) = stream_event(&mut t, &mut store, StreamEvent::ContentBlockStop { index: block }) {
            seen.push(call.index);
        }
    }
    assert_eq!(seen, vec![0, 1, 2]);
    let unparsed = build_tool_call_event(&clewdr_format::claude2oai::FinishedToolCall { index: 5, id: "x".to_string(), name: "Glob".to_string(), arguments: "{".to_string() }, None);
    let EventContent::ToolCalls { tool_calls } = unparsed else { panic!("expected tool calls") };
    assert_eq!(tool_calls[0].function.arguments, "{}");
}

#[test]
fn streaming_signatures_thinking_and_annotations() {
    let mut t = StreamTransducer::new();
    let mut store = SignatureStore::new();
    stream_event(&mut t, &mut store, StreamEvent::ContentBlockDelta { index: 0, delta: ContentBlockDelta::SignatureDelta { signature: "stream_signature_1".to_string() } });
    assert_eq!(get_thought_signature(&store), Some("stream_signature_1".to_string()));
    let StreamOutput::Event(e) = stream_event(&mut t, &mut store, StreamEvent::ContentBlockDelta { index: 0, delta: ContentBlockDelta::ThinkingDelta { thinking: "hmm".to_string() } }) else { panic!("expected a frame") };
    assert_eq!(build_event(&e), r#"{"choices":[{"delta":{"reasoning_content":"hmm"}}]}"#);
    let data = jobj(vec![("source", jobj(vec![("url", jstr("https://s")), ("title", jstr("S"))]))]);
    stream_event(&mut t, &mut store, StreamEvent::ContentBlockStart { index: 2, content_block: ContentBlock::SearchResult { data } });
    let StreamOutput::Event(EventContent::Annotations { annotations }) = stream_event(&mut t, &mut store, StreamEvent::ContentBlockStop { index: 2 }) else { panic!("expected annotations") };
    assert_eq!(annotations.len(), 1);
    assert!(matches!(stream_event(&mut t, &mut store, StreamEvent::ContentBlockStop { index: 2 }), StreamOutput::Nothing));
    assert!(matches!(stream_event(&mut t, &mut store, StreamEvent::Ping), StreamOutput::Nothing));
}

#[test]
fn test_oai_tool_role_conversion() {
    let msg = OaiMessage {
        role: OaiRole::Tool,
        content: OaiMessageContent::Text(r#"{"result": "success"}"#.to_string()),
        tool_call_id: Some("call_123".to_string()),
        tool_calls: None,
        annotations: None,
    };
    let converted = convert_oai_message(msg, vec![]);
    assert_eq!(converted.role, Role::User);
    if let MessageContent::Blocks { content } = converted.content {
        assert_eq!(content.len(), 1);
        if let ContentBlock::ToolResult { tool_use_id, content, .. } = &content[0] {
            assert_eq!(tool_use_id, "call_123");
            assert_eq!(content, &jstr(r#"{"result": "success"}"#));
        } else {
            panic!("Expected ToolResult block");
        }
    } else {
        panic!("Expected Blocks content");
    }
}

#[test]
fn test_oai_assistant_with_tool_calls() {
    let msg = OaiMessage {
        role: OaiRole::Assistant,
        content: OaiMessageContent::Text("I'll search for that.".to_string()),
        tool_call_id: None,
        tool_calls: Some(vec![OaiToolCall {
            id: "call_456".to_string(),
            type_: "function".to_string(),
            function: OaiToolCallFunction { name: "web_search".to_string(), arguments: r#"{"query": "test"}"#.to_string() },
        }]),
        annotations: None,
    };
    let converted = convert_oai_message(msg, vec![Some(jobj(vec![("query", jstr("test"))]))]);
    assert_eq!(converted.role, Role::Assistant);
    if let MessageContent::Blocks { content } = converted.content {
        assert_eq!(content.len(), 2);
        assert!(matches!(&content[0], ContentBlock::Text { .. }));
        assert!(matches!(&content[1], ContentBlock::ToolUse { .. }));
    } else {
        panic!("Expected Blocks content");
    }
}

#[test]
fn test_oai_role_conversion() {
    assert_eq!(Role::from(OaiRole::System), Role::System);
    assert_eq!(Role::from(OaiRole::User), Role::User);
    assert_eq!(Role::from(OaiRole::Assistant), Role::Assistant);
    assert_eq!(Role::from(OaiRole::Tool), Role::User);
}

#[test]
fn oai_tool_call_arguments_are_remapped_or_empty() {
    let call = |args: &str| OaiToolCall {
        id: "c".to_string(),
        type_: "function".to_string(),
        function: OaiToolCallFunction { name: "web_search".to_string(), arguments: args.to_string() },
    };
    let msg = OaiMessage {
        role: OaiRole::Assistant,
        content: OaiMessageContent::Null,
        tool_call_id: None,
        tool_calls: Some(vec![call(r#"{"q":"x"}"#), call("not json")]),
        annotations: None,
    };
    let converted = convert_oai_message(msg, vec![Some(jobj(vec![("q", jstr("x"))])), None]);
    let MessageContent::Blocks { content } = converted.content else { panic!("expected blocks") };
    assert_eq!(content.len(), 2);
    let ContentBlock::ToolUse { input, .. } = &content[0] else { panic!("expected tool use") };
    assert_eq!(input, &jobj(vec![("query", jstr("x"))]));
    let ContentBlock::ToolUse { input, .. } = &content[1] else { panic!("expected tool use") };
    assert_eq!(input, &jobj(vec![]));
}

#[test]
fn oai_user_message_with_image_and_annotations() {
    let msg = OaiMessage {
        role: OaiRole::User,
        content: OaiMessageContent::Blocks(vec![ContentBlock::ImageUrl {
            image_url: clewdr_format::claude::ImageUrl { url: "data:image/png;base64,AAA=".to_string() },
        }]),
        tool_call_id: None,
        tool_calls: None,
        annotations: Some(vec![jobj(vec![("type", jstr("url_citation")), ("url_citation", jobj(vec![("url", jstr("https://e"))]))])]),
    };
    let converted = convert_oai_message(msg, vec![]);
    let MessageContent::Blocks { content } = converted.content else { panic!("expected blocks") };
    assert_eq!(content[0], ContentBlock::image("base64", "image/png", "AAA="));
    let ContentBlock::ToolResult { tool_use_id, content: c, .. } = &content[1] else { panic!("expected a tool result") };
    assert_eq!(tool_use_id, "web_search");
    assert_eq!(to_json_string(c), r#"[{"type":"web_search_result","url":"https://e","title":null,"snippet":null}]"#);
    let empty = OaiMessage { role: OaiRole::User, content: OaiMessageContent::Text(String::new()), tool_call_id: None, tool_calls: None, annotations: None };
    assert_eq!(convert_oai_message(empty, vec![]).content, MessageContent::Text { content: String::new() });
}

#[test]
fn oai_request_conversion() {
    let request = OaiCreateMessageParams {
        max_completion_tokens: Some(77),
        max_tokens: None,
        messages: vec![
            OaiMessage { role: OaiRole::System, content: OaiMessageContent::Text("be brief".to_string()), tool_call_id: None, tool_calls: None, annotations: None },
            OaiMessage { role: OaiRole::User, content: OaiMessageContent::Text("hi there".to_string()), tool_call_id: None, tool_calls: None, annotations: None },
        ],
        model: "m".to_string(),
        reasoning_effort: Some(Effort::High),
        temperature: None,
        stop: None,
        stream: Some(true),
        thinking: None,
        top_k: None,
        top_p: None,
        tools: Some(vec![
            OaiTool::Function { function: OaiToolFunction { name: "lookup".to_string(), description: None, parameters: None } },
            OaiTool::Function { function: OaiToolFunction { name: "bash".to_string(), description: None, parameters: None } },
            OaiTool::Other,
        ]),
        tool_choice: Some(ToolChoice::Simple(ToolChoiceSimple::Auto)),
        metadata: None,
        n: None,
    };
    let out = request.into_claude(vec![]);
    assert_eq!(out.max_tokens, 77);
    assert_eq!(out.messages.len(), 1);
    assert_eq!(to_json_string(out.system.as_ref().unwrap()), r#"[{"type":"text","text":"be brief"}]"#);
    assert_eq!(out.thinking, Some(Thinking::new(16384)));
    let tools = out.tools.unwrap();
    assert_eq!(tools.len(), 2);
    let clewdr_format::claude::Tool::Custom(custom) = &tools[0] else { panic!("expected a custom tool") };
    assert_eq!(
        to_json_string(&custom.input_schema),
        r#"{"type":"object","properties":{"reason":{"type":"string","description":"Reason for calling this tool"}},"required":["reason"]}"#
    );
    assert!(matches!(tools[1], clewdr_format::claude::Tool::Known(_)));
    assert!(matches!(out.tool_choice, Some(ToolChoice::Object(ToolChoiceObject::Auto { disable_parallel_tool_use: None }))));
    assert!(matches!(tool_from_oai(OaiTool::Other), clewdr_format::claude::Tool::Raw(JsonValue::Object(ref m)) if m.is_empty()));
}

#[test]
fn tool_choice_object_form() {
    assert!(matches!(ToolChoice::Simple(ToolChoiceSimple::Any).to_object_format(), ToolChoice::Object(ToolChoiceObject::Any { disable_parallel_tool_use: None })));
    assert!(matches!(ToolChoice::Simple(ToolChoiceSimple::NoTool).to_object_format(), ToolChoice::Object(ToolChoiceObject::NoTool)));
    let named = ToolChoice::Object(ToolChoiceObject::Tool { name: "my_tool".to_string(), disable_parallel_tool_use: Some(true) });
    assert!(matches!(named.to_object_format(), ToolChoice::Object(ToolChoiceObject::Tool { ref name, disable_parallel_tool_use: Some(true) }) if name == "my_tool"));
}

fn cached_text(text: &str) -> ContentBlock {
    ContentBlock::Text { text: text.to_string(), cache_control: Some(CacheControlEphemeral { type_: CacheControlType::Ephemeral, ttl: None }) }
}

#[test]
fn cache_control_is_stripped_everywhere() {
    let mut messages = vec![
        create_blocks_message(Role::User, vec![cached_text("a"), ContentBlock::text("b")]),
        create_text_message(Role::Assistant, "c"),
    ];
    clean_cache_control_from_messages(&mut messages);
    assert_eq!(messages[0], create_blocks_message(Role::User, vec![ContentBlock::text("a"), ContentBlock::text("b")]));
}

#[test]
fn cache_control_is_stripped_inside_tool_results_and_raw_blocks() {
    let nested = JsonValue::Array(vec![jobj(vec![
        ("type", jstr("text")),
        ("text", jstr("r")),
        ("cache_control", jobj(vec![("type", jstr("ephemeral"))])),
    ])]);
    let mut messages = vec![create_blocks_message(
        Role::User,
        vec![
            ContentBlock::ToolResult { tool_use_id: "t".to_string(), content: nested, is_error: None, cache_control: None },
            ContentBlock::WebSearchToolResult { data: jobj(vec![("cache_control", jobj(vec![])), ("tool_use_id", jstr("w"))]) },
        ],
    )];
    clean_cache_control_from_messages(&mut messages);
    let MessageContent::Blocks { content } = &messages[0].content else { panic!("expected blocks") };
    let ContentBlock::ToolResult { content: c, .. } = &content[0] else { panic!("expected a tool result") };
    assert_eq!(to_json_string(c), r#"[{"type":"text","text":"r"}]"#);
    let ContentBlock::WebSearchToolResult { data } = &content[1] else { panic!("expected raw block") };
    assert_eq!(to_json_string(data), r#"{"tool_use_id":"w"}"#);
}

#[test]
fn code_ingress_refuses_string_system_with_marker() {
    let body = params(vec![create_text_message(Role::User, "hello")]).with_system("I am the Helper agent");
    assert_eq!(
        code_preprocess(body, ClaudeApiFormat::Claude, "p".to_string(), "Helper agent").err(),
        Some(ClewdrError::BadRequest { msg: "System prompt is not an array".to_string() })
    );
}

#[test]
fn sanitize_trims_and_drops_empty_assistant_turns() {
    let messages = vec![
        create_text_message(Role::User, "  hi  "),
        create_text_message(Role::Assistant, "   "),
        create_blocks_message(Role::Assistant, vec![ContentBlock::text("  ")]),
        create_blocks_message(Role::User, vec![ContentBlock::text(" x "), ContentBlock::RedactedThinking { data: "d".to_string() }]),
    ];
    let out = sanitize_messages(messages);
    assert_eq!(out, vec![
        create_text_message(Role::User, "hi"),
        create_blocks_message(Role::User, vec![ContentBlock::text("x"), ContentBlock::RedactedThinking { data: "d".to_string() }]),
    ]);
}

#[test]
fn normalize_disables_thinking_for_tool_history() {
    let mut body = params(vec![
        create_text_message(Role::User, "hello"),
        create_blocks_message(Role::Assistant, vec![tool_use("x", "t", jobj(vec![]))]),
    ]);
    body.thinking = Some(Thinking::new(4096));
    let (out, report) = normalize_request(body, &None);
    assert!(out.thinking.is_none());
    assert!(report.thinking_disabled);
}

#[test]
fn normalize_reads_thinking_suffix_and_strips() {
    let mut body = params(vec![
        create_text_message(Role::User, "hello"),
        create_blocks_message(Role::Assistant, vec![cached_text("ok"), thinking("t", Some("short"))]),
    ]);
    body.model = "opus-4-thinking".to_string();
    let (out, report) = normalize_request(body, &None);
    assert_eq!(out.model, "opus-4");
    assert_eq!(out.thinking, Some(Thinking::new(4096)));
    assert!(!report.thinking_disabled);
    assert_eq!(out.messages[1], create_blocks_message(Role::Assistant, vec![ContentBlock::text("ok")]));
}

#[test]
fn probe_requests_fail_with_test_message() {
    let probe = params(vec![create_text_message(Role::User, "Hi")]);
    assert_eq!(web_preprocess(probe, ClaudeApiFormat::Claude).err(), Some(ClewdrError::TestMessage));
    let block_probe = params(vec![create_blocks_message(Role::User, vec![ContentBlock::text("Hi")])]);
    assert!(matches!(code_preprocess(block_probe, ClaudeApiFormat::OpenAI, "p".to_string(), "m"), Err(ClewdrError::TestMessage)));
    let streamed = params(vec![create_text_message(Role::User, "Hi")]).with_stream(true);
    let ok = web_preprocess(streamed, ClaudeApiFormat::Claude).unwrap();
    let ClaudeContext::Web(ctx) = ok.1 else { panic!("expected a web context") };
    assert!(ctx.stream);
    assert!(ctx.usage.input_tokens > 0);
}

#[test]
fn code_ingress_adds_prelude_and_clears_top_p() {
    let mut body = params(vec![create_text_message(Role::User, "hello")]).with_system("be nice");
    body.temperature = Some("0.5".to_string());
    body.top_p = Some("0.9".to_string());
    let (pre, cached) = code_preprocess(body, ClaudeApiFormat::Claude, "You are the Helper agent".to_string(), "Helper agent").unwrap();
    assert!(pre.0.top_p.is_none());
    let system = to_json_string(pre.0.system.as_ref().unwrap());
    assert_eq!(system, r#"[{"type":"text","text":"You are the Helper agent"},{"type":"text","text":"be nice"}]"#);
    assert!(cached.is_empty());
    let mut named = params(vec![create_text_message(Role::User, "hello")]);
    named.system = Some(JsonValue::Array(vec![jobj(vec![("type", jstr("text")), ("text", jstr("I am the Helper agent"))])]));
    let expected = named.system.clone();
    let (pre, _) = code_preprocess(named, ClaudeApiFormat::Claude, "prelude".to_string(), "Helper agent").unwrap();
    assert_eq!(pre.0.system, expected);
}

#[test]
fn dialect_follows_the_path() {
    assert_eq!(format_of_path("/v1/chat/completions"), ClaudeApiFormat::OpenAI);
    assert_eq!(format_of_path("/v1/messages"), ClaudeApiFormat::Claude);
}

#[test]
fn web_prompt_merges_turns() {
    let config = PromptConfig { custom_h: None, custom_a: Some("AI".to_string()), use_real_roles: false, custom_prompt: "p".to_string() };
    let messages = vec![
        create_text_message(Role::User, " one "),
        create_text_message(Role::User, "two"),
        create_blocks_message(Role::Assistant, vec![thinking(" deep ", None), ContentBlock::text("three")]),
        create_blocks_message(Role::User, vec![ContentBlock::image("base64", "image/png", "AAA=")]),
    ];
    let merged = merge_messages(messages.clone(), "", &config).unwrap();
    assert_eq!(merged.paste, "one\ntwo\n\nAI: <thinking>deep</thinking>\nthree");
    assert_eq!(merged.prompt, "p");
    assert_eq!(merged.images.len(), 1);
    let with_system = merge_messages(messages, " sys ", &config).unwrap();
    assert!(with_system.paste.starts_with("sys\n\nHuman: one\ntwo"));
    assert!(merge_messages(vec![], "sys", &config).is_none());
    assert_eq!(merge_system(&JsonValue::Array(vec![jobj(vec![("text", jstr(" a "))]), jobj(vec![("text", jstr("b"))])])), "a\nb");
}

#[test]
fn reasons_describe_themselves() {
    assert_eq!(Reason::Banned.describe(), "Banned");
    assert_eq!(Reason::Restricted(0).describe(), "Restricted/Warning: until UTC 1970-01-01 00:00:00");
    assert_eq!(Reason::TooManyRequest(i64::MAX).describe(), "429 Too many request: until Invalid date");
    let c = UselessCookie::new("cookie".to_string(), Reason::Free);
    assert_eq!(c.request_count, 0);
    assert!(c.added_at.is_none());
}

#[test]
fn response_text_helper_and_token_counts() {
    let r = CreateMessageResponse::text("hello there".to_string(), "m".to_string(), Usage { input_tokens: 1, output_tokens: 2 });
    assert_eq!(r.id.len(), 36);
    assert!(r.count_tokens() > 0);
    assert_eq!(r.content, vec![ContentBlock::text("hello there")]);
}

#[test]
fn guards_pick_their_credential() {
    let b = Some("bearer".to_string());
    let k = Some("key".to_string());
    assert_eq!(RequireBearerAuth::key(b.clone(), k.clone()), Ok("bearer".to_string()));
    assert_eq!(RequireXApiKeyAuth::key(b.clone(), k.clone()), Ok("key".to_string()));
    assert_eq!(RequireXApiKeyAuth::key(b.clone(), None), Ok("bearer".to_string()));
    assert_eq!(RequireBearerAuth::key(None, None), Err(ClewdrError::InvalidAuth));
    assert_eq!(RequireAdminAuth::key(None), Err(ClewdrError::InvalidAuth));
    assert_eq!(verdict(false), Err(ClewdrError::InvalidAuth));
    assert_eq!(verdict(true), Ok(()));
}

#[test]
fn web_request_names_model_for_pro_accounts() {
    let config = PromptConfig { custom_h: None, custom_a: None, use_real_roles: true, custom_prompt: String::new() };
    let body = params(vec![create_text_message(Role::User, "q"), create_text_message(Role::Assistant, "a")]).with_system("s").with_stream(true);
    let w = clewdr_format::web_transform::transform_request(body.clone(), true, false, &config).unwrap();
    assert_eq!(w.paste, "s\n\n\u{8}Human: q\n\n\u{8}Assistant: a");
    assert_eq!(w.model.as_deref(), Some("sonnet-4-5-20250929"));
    assert_eq!(w.rendering_mode, "messages");
    assert_eq!(w.max_tokens_to_sample, 1024);
    let free = clewdr_format::web_transform::transform_request(body, false, true, &config).unwrap();
    assert!(free.model.is_none());
    assert!(free.web_search);
}

#[test]
fn sanitize_trims_unicode_white_space_like_str_trim() {
    let raw = "\u{3000}\u{a0} mixed\ttext\u{2009}\n";
    let out = sanitize_messages(vec![create_text_message(Role::User, raw)]);
    assert_eq!(out, vec![create_text_message(Role::User, raw.trim())]);
    assert_eq!(out[0], create_text_message(Role::User, "mixed\ttext"));
}

#[test]
fn usage_total_does_not_overflow() {
    let mut store = SignatureStore::new();
    let input = response(vec![ContentBlock::text("x")], None, Some(Usage { input_tokens: u32::MAX, output_tokens: 1 }));
    let result = transforms_json(input, &mut store, 0);
    assert_eq!(field(field(&result, "usage"), "total_tokens"), &JsonValue::Number("4294967296".to_string()));
    assert_eq!(field(&result, "created"), &JsonValue::Number("0".to_string()));
}
