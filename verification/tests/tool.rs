use goose_ffi2::json::JsonValue;
use goose_ffi2::tool::{create_tool, ToolDefinition, ToolParameter};

fn raw(s: &str) -> Option<Vec<u8>> {
    Some(s.as_bytes().to_vec())
}

fn s(text: &str) -> JsonValue {
    JsonValue::String(text.to_string())
}

fn entry(key: &str, v: JsonValue) -> (String, JsonValue) {
    (key.to_string(), v)
}

fn property(name: &str, param_type: &str, description: &str) -> (String, JsonValue) {
    entry(
        name,
        JsonValue::Object(vec![entry("type", s(param_type)), entry("description", s(description))]),
    )
}

fn schema(required: &[&str], properties: Vec<(String, JsonValue)>) -> JsonValue {
    JsonValue::Object(vec![
        entry("type", s("object")),
        entry("required", JsonValue::Array(required.iter().map(|r| s(r)).collect())),
        entry("properties", JsonValue::Object(properties)),
    ])
}

fn param(name: &str, description: &str, param_type: &str, required: bool) -> ToolParameter {
    ToolParameter {
        name: raw(name),
        description: raw(description),
        param_type: raw(param_type),
        required,
    }
}

#[test]
fn tool_schema_from_parameters() {
    let def = ToolDefinition {
        name: raw("search"),
        description: raw("Search the web"),
        parameters: vec![
            param("query", "What to look for", "string", true),
            param("limit", "How many results", "number", false),
            param("safe", "Safe search", "boolean", true),
        ],
    };
    let tool = create_tool(&def).unwrap();
    assert_eq!(tool.name, "search");
    assert_eq!(tool.description, "Search the web");
    assert_eq!(
        tool.input_schema,
        schema(
            &["query", "safe"],
            vec![
                property("query", "string", "What to look for"),
                property("limit", "number", "How many results"),
                property("safe", "boolean", "Safe search"),
            ],
        )
    );
    assert_eq!(tool.annotations, None);
}

#[test]
fn repeated_parameter_name_last_one_wins() {
    let def = ToolDefinition {
        name: raw("t"),
        description: raw("d"),
        parameters: vec![
            param("x", "first", "string", true),
            param("y", "other", "number", false),
            param("x", "second", "array", true),
        ],
    };
    let tool = create_tool(&def).unwrap();
    assert_eq!(
        tool.input_schema,
        schema(
            &["x", "x"],
            vec![property("x", "array", "second"), property("y", "number", "other")],
        )
    );
}

#[test]
fn tool_without_parameters() {
    let def = ToolDefinition { name: raw("noop"), description: raw(""), parameters: vec![] };
    let tool = create_tool(&def).unwrap();
    assert_eq!(tool.input_schema, schema(&[], vec![]));
}

#[test]
fn tool_errors_come_in_order() {
    let def = ToolDefinition { name: None, description: None, parameters: vec![] };
    assert_eq!(create_tool(&def).err(), Some("Null pointer provided".to_string()));

    let def = ToolDefinition {
        name: raw("t"),
        description: Some(vec![0xc3]),
        parameters: vec![],
    };
    assert_eq!(
        create_tool(&def).err(),
        Some("Invalid UTF-8 string: incomplete utf-8 byte sequence from index 0".to_string())
    );

    let mut bad = param("p", "d", "string", false);
    bad.param_type = None;
    let def = ToolDefinition {
        name: raw("t"),
        description: raw("d"),
        parameters: vec![param("ok", "d", "string", true), bad],
    };
    assert_eq!(create_tool(&def).err(), Some("Null pointer provided".to_string()));
}
