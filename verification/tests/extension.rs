use goose_ffi2::extension::{collect_prefixed_tools, create_extension, Extension, GooseFfi2Extension};
use goose_ffi2::json::JsonValue;
use goose_ffi2::tool::{Tool, ToolDefinition};

fn tool(name: &str) -> Tool {
    Tool {
        name: name.to_string(),
        description: format!("{} tool", name),
        input_schema: JsonValue::Object(vec![("type".to_string(), JsonValue::String("object".to_string()))]),
        annotations: None,
    }
}

fn raw(s: &str) -> Option<Vec<u8>> {
    Some(s.as_bytes().to_vec())
}

#[test]
fn new_keeps_its_arguments() {
    let e = Extension::new("dev".to_string(), Some("be careful".to_string()), vec![tool("shell")]);
    assert_eq!(e.name, "dev");
    assert_eq!(e.instructions, Some("be careful".to_string()));
    assert_eq!(e.tools.len(), 1);
    assert_eq!(e.tools[0].name, "shell");
}

#[test]
fn prefixed_tools_carry_the_extension_name() {
    let e = Extension::new("developer".to_string(), None, vec![tool("shell"), tool("edit")]);
    let prefixed = e.get_prefixed_tools();
    let names: Vec<&str> = prefixed.iter().map(|t| t.name.as_str()).collect();
    assert_eq!(names, vec!["developer__shell", "developer__edit"]);
    assert_eq!(prefixed[0].description, "shell tool");
    assert_eq!(e.tools[0].name, "shell");
}

#[test]
fn all_extensions_tools_in_order() {
    let exts = vec![
        Extension::new("a".to_string(), None, vec![tool("x"), tool("y")]),
        Extension::new("b".to_string(), None, vec![]),
        Extension::new("c".to_string(), None, vec![tool("z")]),
    ];
    let names: Vec<String> = collect_prefixed_tools(&exts).into_iter().map(|t| t.name).collect();
    assert_eq!(names, vec!["a__x", "a__y", "c__z"]);
}

#[test]
fn extension_from_c() {
    let def = GooseFfi2Extension {
        name: raw("ext"),
        instructions: None,
        tools: vec![ToolDefinition { name: raw("t1"), description: raw("d"), parameters: vec![] }],
    };
    let e = create_extension(&def).unwrap();
    assert_eq!(e.name, "ext");
    assert_eq!(e.instructions, None);
    assert_eq!(e.tools[0].name, "t1");

    let def = GooseFfi2Extension { name: raw("ext"), instructions: raw("use it"), tools: vec![] };
    assert_eq!(create_extension(&def).unwrap().instructions, Some("use it".to_string()));
}

#[test]
fn extension_errors() {
    let def = GooseFfi2Extension { name: None, instructions: None, tools: vec![] };
    assert_eq!(create_extension(&def).err(), Some("Null pointer provided".to_string()));

    let def = GooseFfi2Extension {
        name: raw("ext"),
        instructions: Some(vec![0xff]),
        tools: vec![],
    };
    assert!(create_extension(&def).err().unwrap().starts_with("Invalid UTF-8 string: "));

    let def = GooseFfi2Extension {
        name: raw("ext"),
        instructions: None,
        tools: vec![
            ToolDefinition { name: raw("t1"), description: raw("d"), parameters: vec![] },
            ToolDefinition { name: raw("t2"), description: None, parameters: vec![] },
        ],
    };
    assert_eq!(create_extension(&def).err(), Some("Null pointer provided".to_string()));
}

#[test]
fn any_tool_passes_through_prefixing() {
    let schema = JsonValue::Object(vec![
        ("type".to_string(), JsonValue::String("object".to_string())),
        ("minProperties".to_string(), JsonValue::Number("1".to_string())),
        (
            "anyOf".to_string(),
            JsonValue::Array(vec![JsonValue::Null, JsonValue::Bool(true), JsonValue::Number("2.5".to_string())]),
        ),
    ]);
    let annotations = JsonValue::Object(vec![("readOnlyHint".to_string(), JsonValue::Bool(true))]);
    let t = Tool {
        name: "read".to_string(),
        description: "Reads".to_string(),
        input_schema: schema,
        annotations: Some(annotations),
    };
    let e = Extension::new("fs".to_string(), None, vec![t]);
    let prefixed = e.get_prefixed_tools();
    assert_eq!(prefixed[0].name, "fs__read");
    assert_eq!(prefixed[0].description, "Reads");
    assert_eq!(prefixed[0].input_schema, e.tools[0].input_schema);
    assert_eq!(prefixed[0].annotations, e.tools[0].annotations);
}
