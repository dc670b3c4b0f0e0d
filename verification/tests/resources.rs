use mini_app_mcp::dump::{DumpConfig, SyncMode};
use mini_app_mcp::json::{self, JsonValue};
use mini_app_mcp::mcp::resources::{
    derive_json_schema, info_text, read_resource_impl, readme, resource_list, ResourceBody, ERRORS_DOC,
    TOOLS_DOC,
};
use mini_app_mcp::schema::{FieldDef, FieldType, SchemaConfig};

fn plain(v: &JsonValue) -> serde_json::Value {
    serde_json::from_str(&v.to_text()).expect("JSON text")
}

fn derived(schema: &SchemaConfig) -> serde_json::Value {
    plain(&derive_json_schema(schema))
}

fn make_schema() -> SchemaConfig {
    SchemaConfig {
        table: "items".to_string(),
        title: None,
        description: None,
        fields: vec![
            FieldDef {
                name: "title".to_string(),
                ty: FieldType::String,
                required: true,
                description: None,
            },
            FieldDef {
                name: "count".to_string(),
                ty: FieldType::Number,
                required: false,
                description: None,
            },
        ],
        dump: None,
    }
}

#[test]
fn derive_json_schema_has_correct_title() {
    let schema = make_schema();
    let js = derived(&schema);
    assert_eq!(js["title"], "items");
}

#[test]
fn derive_json_schema_required_array_contains_required_fields() {
    let schema = make_schema();
    let js = derived(&schema);
    let req = js["required"].as_array().expect("required must be array");
    assert!(req.contains(&serde_json::Value::String("title".to_string())));
    assert!(!req.contains(&serde_json::Value::String("count".to_string())));
}

#[test]
fn derive_json_schema_type_mapping() {
    let schema = SchemaConfig {
        table: "t".to_string(),
        title: None,
        description: None,
        fields: vec![
            FieldDef {
                name: "s".to_string(),
                ty: FieldType::String,
                required: false,
                description: None,
            },
            FieldDef {
                name: "n".to_string(),
                ty: FieldType::Number,
                required: false,
                description: None,
            },
            FieldDef {
                name: "b".to_string(),
                ty: FieldType::Boolean,
                required: false,
                description: None,
            },
            FieldDef {
                name: "a".to_string(),
                ty: FieldType::Array,
                required: false,
                description: None,
            },
            FieldDef {
                name: "o".to_string(),
                ty: FieldType::Object,
                required: false,
                description: None,
            },
        ],
        dump: None,
    };
    let js = derived(&schema);
    assert_eq!(js["properties"]["s"]["type"], "string");
    assert_eq!(js["properties"]["n"]["type"], "number");
    assert_eq!(js["properties"]["b"]["type"], "boolean");
    assert_eq!(js["properties"]["a"]["type"], "array");
    assert_eq!(js["properties"]["o"]["type"], "object");
}

#[test]
fn readme_starts_with_heading() {
    assert!(
        readme().starts_with("# mini-app-mcp"),
        "README must start with '# mini-app-mcp'"
    );
}

#[test]
fn tools_doc_contains_all_seven_tools() {
    for tool in &[
        "info", "create", "get", "list", "update", "delete", "reload",
    ] {
        assert!(
            TOOLS_DOC.contains(&format!("## `{tool}`")),
            "TOOLS_DOC must contain section for '{tool}'"
        );
    }
}

#[test]
fn errors_doc_contains_all_error_codes() {
    for code in &[
        "VALIDATION_ERROR",
        "NOT_FOUND",
        "SCHEMA_ERROR",
        "STORAGE_ERROR",
        "IO_ERROR",
        "CONFIG_ERROR",
        "TABLE_NOT_FOUND",
        "TABLE_REQUIRED",
        "SNAPSHOT_ERROR",
        "MATERIALIZE_DEST_RELATIVE",
        "MATERIALIZE_DEST_INVALID",
        "MATERIALIZE_IO_ERROR",
        "MATERIALIZE_SHA256_ERROR",
        "MATERIALIZE_ROW_NOT_FOUND",
        "MATERIALIZE_EMPTY_RESULT",
        "MATERIALIZE_FORMAT_ERROR",
        "MATERIALIZE_FIELD_UNKNOWN",
        "MATERIALIZE_INVALID_PARAM",
    ] {
        assert!(
            ERRORS_DOC.contains(code),
            "ERRORS_DOC must contain code '{code}'"
        );
    }
}

#[test]
fn tools_doc_contains_data_snapshot() {
    assert!(
        TOOLS_DOC.contains("## `data_snapshot`"),
        "TOOLS_DOC must contain section for 'data_snapshot'"
    );
}

#[test]
fn tools_doc_contains_row_materialize() {
    assert!(
        TOOLS_DOC.contains("## `row_materialize`"),
        "TOOLS_DOC must contain section for 'row_materialize'"
    );
}

#[test]
fn derived_schema_is_complete() {
    let js = derived(&make_schema());
    assert_eq!(js["$schema"], "http://json-schema.org/draft-07/schema#");
    assert_eq!(js["type"], "object");
    assert_eq!(js["additionalProperties"], true);
    assert_eq!(js.as_object().unwrap().len(), 6);
    assert_eq!(js["required"].as_array().unwrap().len(), 1);
}

#[test]
fn offered_resources_read_with_their_mime_type() {
    let schema = make_schema();
    let list = resource_list();
    let uris: Vec<&str> = list.iter().map(|r| r.uri).collect();
    assert_eq!(
        uris,
        vec![
            "schema://yaml",
            "schema://json",
            "schema://json-schema",
            "docs://readme",
            "docs://tools",
            "docs://errors"
        ]
    );
    for info in &list {
        let (body, mime) = read_resource_impl(info.uri, &schema).expect("offered");
        assert_eq!(mime, info.mime_type);
        match body {
            ResourceBody::SchemaFile => assert_eq!(info.uri, "schema://yaml"),
            ResourceBody::Text(t) => assert!(!t.is_empty()),
        }
    }
    assert_eq!(
        read_resource_impl("docs://none", &schema),
        Err("unknown resource URI: docs://none".to_string())
    );
}

#[test]
fn schema_json_is_spread_over_lines() {
    let schema = make_schema();
    match read_resource_impl("schema://json", &schema) {
        Ok((ResourceBody::Text(t), mime)) => {
            assert_eq!(mime, "application/json");
            assert!(t.starts_with("{\n  \""));
            let v: serde_json::Value = serde_json::from_str(&t).unwrap();
            assert_eq!(v["table"], "items");
            assert_eq!(v["title"], serde_json::Value::Null);
            assert_eq!(v["fields"][0]["type"], "string");
            assert_eq!(v["fields"][1]["required"], false);
            assert!(v.get("dump").is_none());
            assert_eq!(t, info_text(&schema));
        }
        other => panic!("unexpected {other:?}"),
    }
}

/// Whether an object has the required keys, and values of the right kind.
fn meets(schema: &serde_json::Value, row: &serde_json::Value) -> bool {
    let kind = |v: &serde_json::Value| match v {
        serde_json::Value::Null => "null",
        serde_json::Value::Bool(_) => "boolean",
        serde_json::Value::Number(_) => "number",
        serde_json::Value::String(_) => "string",
        serde_json::Value::Array(_) => "array",
        serde_json::Value::Object(_) => "object",
    };
    let required = schema["required"].as_array().unwrap();
    let properties = schema["properties"].as_object().unwrap();
    required.iter().all(|k| row.get(k.as_str().unwrap()).is_some())
        && properties
            .iter()
            .all(|(k, p)| row.get(k).map_or(true, |v| p["type"] == kind(v)))
}

#[test]
fn rows_without_nulls_are_accepted_exactly_where_they_meet_the_json_schema() {
    let schema = make_schema();
    let js = derived(&schema);
    for (row, accepted) in [
        (r#"{"title":"a"}"#, true),
        (r#"{"title":"a","count":3,"more":true}"#, true),
        (r#"{"count":3}"#, false),
        (r#"{"title":1}"#, false),
        (r#"{"title":"a","count":"3"}"#, false),
    ] {
        assert_eq!(schema.validate(&json::parse(row).unwrap()).is_ok(), accepted);
        assert_eq!(meets(&js, &serde_json::from_str(row).unwrap()), accepted);
    }
    let null = r#"{"title":"a","count":null}"#;
    assert!(schema.validate(&json::parse(null).unwrap()).is_ok());
    assert!(!meets(&js, &serde_json::from_str(null).unwrap()));
}

#[test]
fn a_schema_is_shown_in_the_order_of_declaration() {
    let mut schema = make_schema();
    schema.title = Some("Things \"here\"".to_string());
    schema.dump = Some(DumpConfig {
        dir: Some("out".to_string()),
        title_field: None,
        body_field: None,
        sync: Some(SyncMode::WriteOnly),
    });
    let expected = r#"{
  "table": "items",
  "title": "Things \"here\"",
  "description": null,
  "fields": [
    {
      "name": "title",
      "type": "string",
      "required": true,
      "description": null
    },
    {
      "name": "count",
      "type": "number",
      "required": false,
      "description": null
    }
  ],
  "dump": {
    "dir": "out",
    "title_field": null,
    "body_field": null,
    "sync": "write-only"
  }
}"#;
    assert_eq!(info_text(&schema), expected);
    schema.fields = vec![];
    schema.dump = None;
    assert_eq!(
        info_text(&schema),
        "{\n  \"table\": \"items\",\n  \"title\": \"Things \\\"here\\\"\",\n  \"description\": null,\n  \"fields\": []\n}"
    );
}

#[test]
fn the_readme_is_served_whole() {
    let text = readme();
    assert_eq!(
        read_resource_impl("docs://readme", &make_schema()),
        Ok((ResourceBody::Text(text.clone()), "text/markdown"))
    );
    assert_eq!(text.len(), 36681);
    let mut from = 0;
    for head in [
        "\n## What it does\n",
        "\n## MCP tools\n",
        "\n## MCP resources\n",
        "\n## Row materialization\n",
        "\n## Relation graph usage\n",
        "\n## Query aliases\n",
        "\n## Aggregation\n",
        "\n## License\n",
    ] {
        from += text[from..].find(head).expect(head);
    }
    assert!(text.ends_with("MIT OR Apache-2.0\n"));
}
