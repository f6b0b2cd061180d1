use clewdr_format::json::{JsonMember, JsonValue};
use clewdr_format::json_text::to_json_string;
use clewdr_format::param_remapper::{
    remap_function_call_args, remap_oai_to_claude_args, remap_tool_result_args,
};
use clewdr_format::schema_cleaner::{
    clean_json_schema, ensure_valid_schema, expand_refs, move_constraints_to_description,
};

fn text(x: &str) -> JsonValue {
    JsonValue::Str(x.to_string())
}

fn num(x: &str) -> JsonValue {
    JsonValue::Number(x.to_string())
}

fn object(ms: Vec<(&str, JsonValue)>) -> JsonValue {
    JsonValue::Object(ms.into_iter().map(|(k, v)| JsonMember { key: k.to_string(), value: v }).collect())
}

fn list(items: Vec<JsonValue>) -> JsonValue {
    JsonValue::Array(items)
}

fn at<'a>(v: &'a JsonValue, k: &str) -> &'a JsonValue {
    v.get(k).unwrap_or_else(|| panic!("missing member {k}"))
}

#[test]
fn test_grep_remapping() {
    let mut args = object(vec![("query", text("search pattern")), ("path", text("/some/path"))]);
    remap_function_call_args("Grep", &mut args);
    assert!(args.get("query").is_none());
    assert_eq!(at(&args, "pattern"), &text("search pattern"));
    assert_eq!(at(&args, "path"), &text("/some/path"));
}

#[test]
fn test_glob_remapping() {
    let mut args = object(vec![("query", text("*.rs"))]);
    remap_function_call_args("Glob", &mut args);
    assert!(args.get("query").is_none());
    assert_eq!(at(&args, "pattern"), &text("*.rs"));
}

#[test]
fn test_read_remapping() {
    let mut args = object(vec![("path", text("/some/file.txt"))]);
    remap_function_call_args("Read", &mut args);
    assert!(args.get("path").is_none());
    assert_eq!(at(&args, "file_path"), &text("/some/file.txt"));
}

#[test]
fn test_no_overwrite_existing() {
    let mut args = object(vec![("query", text("old query")), ("pattern", text("existing pattern"))]);
    remap_function_call_args("Grep", &mut args);
    assert_eq!(at(&args, "pattern"), &text("existing pattern"));
    assert!(args.get("query").is_none());
}

#[test]
fn test_unknown_tool_no_change() {
    let mut args = object(vec![("query", text("test")), ("path", text("/test"))]);
    let original = args.clone();
    remap_function_call_args("UnknownTool", &mut args);
    assert_eq!(args, original);
}

#[test]
fn test_non_object_args() {
    let mut args = text("string value");
    remap_function_call_args("Grep", &mut args);
    assert_eq!(args, text("string value"));
}

#[test]
fn test_oai_to_claude_web_search() {
    let mut args = object(vec![("q", text("search query"))]);
    remap_oai_to_claude_args("web_search", &mut args);
    assert!(args.get("q").is_none());
    assert_eq!(at(&args, "query"), &text("search query"));
}

#[test]
fn test_remap_tool_result_args() {
    let mut args = object(vec![("result", text("success"))]);
    let original = args.clone();
    remap_tool_result_args("call_123", &mut args);
    assert_eq!(args, original);
}

#[test]
fn remap_moves_value_in_place_for_each_listed_tool() {
    let cases = [
        ("Grep", "query", "pattern"),
        ("Glob", "query", "pattern"),
        ("Read", "path", "file_path"),
        ("Write", "path", "file_path"),
        ("Edit", "path", "file_path"),
        ("ListDir", "path", "directory"),
        ("LS", "path", "directory"),
        ("web_search", "q", "query"),
    ];
    for (tool, from, to) in cases {
        let mut args = object(vec![(from, text("v")), ("other", num("1"))]);
        remap_function_call_args(tool, &mut args);
        assert_eq!(args, object(vec![(to, text("v")), ("other", num("1"))]), "tool {tool}");
    }
}

#[test]
fn remap_twice_equals_once() {
    let mut once = object(vec![("query", text("a")), ("pattern", text("b")), ("path", text("c"))]);
    remap_function_call_args("Grep", &mut once);
    let mut twice = once.clone();
    remap_function_call_args("Grep", &mut twice);
    assert_eq!(once, twice);
    assert_eq!(once, object(vec![("pattern", text("b")), ("path", text("c"))]));
}

#[test]
fn remapped_arguments_serialize_with_destination_first() {
    let mut args = object(vec![("query", text("search pattern")), ("path", text("/some/path"))]);
    remap_function_call_args("Grep", &mut args);
    assert_eq!(to_json_string(&args), r#"{"pattern":"search pattern","path":"/some/path"}"#);
}

#[test]
fn test_clean_removes_unsupported_keywords() {
    let mut schema = object(vec![
        ("type", text("object")),
        ("$schema", text("http://json-schema.org/draft-07/schema#")),
        ("$id", text("test")),
        ("additionalProperties", JsonValue::Bool(false)),
        ("properties", object(vec![("name", object(vec![("type", text("string"))]))])),
    ]);
    clean_json_schema(&mut schema);
    assert!(schema.get("$schema").is_none());
    assert!(schema.get("$id").is_none());
    assert!(schema.get("additionalProperties").is_none());
    assert!(schema.get("properties").is_some());
}

#[test]
fn test_clean_handles_type_arrays() {
    let mut schema = object(vec![("type", list(vec![text("string"), text("null")]))]);
    clean_json_schema(&mut schema);
    assert_eq!(at(&schema, "type"), &text("string"));
    assert_eq!(at(&schema, "nullable"), &JsonValue::Bool(true));
}

#[test]
fn test_clean_handles_multiple_types() {
    let mut schema = object(vec![("type", list(vec![text("string"), text("number")]))]);
    clean_json_schema(&mut schema);
    assert!(schema.get("type").is_none());
    assert!(schema.get("anyOf").is_some());
}

#[test]
fn test_ensure_valid_schema_empty() {
    let mut schema = object(vec![]);
    ensure_valid_schema(&mut schema);
    assert_eq!(at(&schema, "type"), &text("object"));
    assert!(schema.get("properties").is_some());
    assert!(schema.get("required").is_some());
}

#[test]
fn test_ensure_valid_schema_non_object() {
    let mut schema = text("not an object");
    ensure_valid_schema(&mut schema);
    assert_eq!(at(&schema, "type"), &text("object"));
}

#[test]
fn test_move_constraints_to_description() {
    let mut schema = object(vec![
        ("type", text("string")),
        ("minLength", num("1")),
        ("maxLength", num("100")),
        ("description", text("A name")),
    ]);
    move_constraints_to_description(&mut schema);
    let desc = at(&schema, "description").as_str().unwrap();
    assert!(desc.contains("Minimum length: 1"));
    assert!(desc.contains("Maximum length: 100"));
}

#[test]
fn test_expand_refs() {
    let schema = object(vec![
        (
            "$defs",
            object(vec![(
                "Address",
                object(vec![
                    ("type", text("object")),
                    ("properties", object(vec![("street", object(vec![("type", text("string"))]))])),
                ]),
            )]),
        ),
        ("type", text("object")),
        ("properties", object(vec![("home", object(vec![("$ref", text("#/$defs/Address"))]))])),
    ]);
    let expanded = expand_refs(&schema);
    assert!(expanded.get("$defs").is_none());
    assert_eq!(at(at(at(&expanded, "properties"), "home"), "type"), &text("object"));
}

#[test]
fn test_recursive_cleaning() {
    let mut schema = object(vec![
        ("type", text("object")),
        (
            "properties",
            object(vec![(
                "inner",
                object(vec![
                    ("type", text("object")),
                    ("$comment", text("should be removed")),
                    ("properties", object(vec![("deep", object(vec![("type", list(vec![text("string"), text("null")]))]))])),
                ]),
            )]),
        ),
    ]);
    clean_json_schema(&mut schema);
    let inner = at(at(&schema, "properties"), "inner");
    assert!(inner.get("$comment").is_none());
    let deep = at(at(inner, "properties"), "deep");
    assert_eq!(at(deep, "type"), &text("string"));
    assert_eq!(at(deep, "nullable"), &JsonValue::Bool(true));
}

#[test]
fn clean_is_idempotent_on_simple_types() {
    let mut schema = object(vec![
        ("type", text("object")),
        ("title", text("T")),
        ("properties", object(vec![
            ("title", object(vec![("type", list(vec![text("null"), text("integer")])), ("minimum", num("0"))])),
            ("tags", object(vec![("type", text("array")), ("items", object(vec![("type", text("string")), ("format", text("uri"))]))])),
        ])),
    ]);
    clean_json_schema(&mut schema);
    let once = schema.clone();
    clean_json_schema(&mut schema);
    assert_eq!(schema, once);
    let title = at(at(&once, "properties"), "title");
    assert_eq!(at(title, "type"), &text("integer"));
    assert!(at(at(at(&once, "properties"), "tags"), "items").get("format").is_none());
}

#[test]
fn anyof_from_type_list_holds_one_item_per_type() {
    let mut schema = object(vec![("type", list(vec![text("string"), text("null"), text("number")]))]);
    clean_json_schema(&mut schema);
    assert_eq!(
        schema,
        object(vec![
            ("nullable", JsonValue::Bool(true)),
            ("anyOf", list(vec![object(vec![("type", text("string"))]), object(vec![("type", text("number"))])])),
        ])
    );
}

#[test]
fn ensure_valid_keeps_existing_properties() {
    let mut schema = object(vec![("type", text("object")), ("properties", object(vec![("a", object(vec![]))]))]);
    let before = schema.clone();
    ensure_valid_schema(&mut schema);
    assert_eq!(schema, before);
    let mut array_schema = object(vec![("type", text("array"))]);
    ensure_valid_schema(&mut array_schema);
    assert!(array_schema.get("properties").is_none());
    let mut empty_props = object(vec![("type", text("object")), ("properties", object(vec![]))]);
    ensure_valid_schema(&mut empty_props);
    assert_eq!(
        to_json_string(&empty_props),
        r#"{"type":"object","properties":{"reason":{"type":"string","description":"Reason for calling this tool"}},"required":["reason"]}"#
    );
}

#[test]
fn constraints_note_without_description() {
    let mut schema = object(vec![
        ("type", text("array")),
        ("minItems", num("2")),
        ("pattern", text("^a")),
        ("maximum", num("9.5")),
        ("minLength", num("-1")),
    ]);
    move_constraints_to_description(&mut schema);
    assert_eq!(at(&schema, "description"), &text("Pattern: ^a, Maximum: 9.5, Minimum items: 2"));
    let mut nested = object(vec![("items", object(vec![("maxItems", num("3")), ("description", text("d"))]))]);
    move_constraints_to_description(&mut nested);
    assert_eq!(at(at(&nested, "items"), "description"), &text("d, Maximum items: 3"));
}

#[test]
fn expand_refs_is_fixed_point_without_refs() {
    let schema = object(vec![
        ("type", text("object")),
        ("properties", object(vec![("a", object(vec![("type", text("string"))]))])),
        ("anyOf", list(vec![object(vec![("type", text("null"))])])),
    ]);
    assert_eq!(expand_refs(&schema), schema);
}

#[test]
fn expand_refs_keeps_existing_fields_and_reads_definitions() {
    let schema = object(vec![
        ("definitions", object(vec![("Name", object(vec![("type", text("string")), ("description", text("from def"))]))])),
        ("properties", object(vec![("n", object(vec![("$ref", text("#/definitions/Name")), ("description", text("own"))]))])),
        ("items", object(vec![("$ref", text("Name"))])),
    ]);
    let expanded = expand_refs(&schema);
    let n = at(at(&expanded, "properties"), "n");
    assert_eq!(n, &object(vec![("description", text("own")), ("type", text("string"))]));
    assert!(expanded.get("definitions").is_none());
    assert_eq!(at(&expanded, "items"), &object(vec![]));
}

#[test]
fn json_text_escapes_strings() {
    let v = object(vec![("k\"", list(vec![text("a\nb\\c\u{1}"), JsonValue::Null, JsonValue::Bool(true), num("-2.5")]))]);
    assert_eq!(to_json_string(&v), "{\"k\\\"\":[\"a\\nb\\\\c\\u0001\",null,true,-2.5]}");
}
