use mini_app_mcp::error::MiniAppError;
use mini_app_mcp::json::{self, JsonValue};
use mini_app_mcp::schema::{FieldDef, FieldType, SchemaConfig};

fn value(text: &str) -> JsonValue {
    json::parse(text).expect("valid JSON")
}

#[test]
fn validate_happy_path_all_fields_present() {
    let schema = SchemaConfig {
        table: "issues".to_string(),
        title: None,
        description: None,
        dump: None,
        fields: vec![
            FieldDef {
                name: "title".to_string(),
                ty: FieldType::String,
                required: true,
                description: None,
            },
            FieldDef {
                name: "count".to_string(),
                ty: FieldType::Number,
                required: false,
                description: None,
            },
        ],
    };
    let value = value(r#"{ "title": "hello", "count": 42 }"#);
    assert!(schema.validate(&value).is_ok());
}

#[test]
fn validate_optional_field_absent_is_ok() {
    let schema = SchemaConfig {
        table: "t".to_string(),
        title: None,
        description: None,
        dump: None,
        fields: vec![FieldDef {
            name: "tags".to_string(),
            ty: FieldType::Array,
            required: false,
            description: None,
        }],
    };
    let value = value(r#"{}"#);
    assert!(schema.validate(&value).is_ok());
}

#[test]
fn validate_unknown_fields_are_accepted() {
    // Agent-First extensibility — extra keys must not cause errors.
    let schema = SchemaConfig {
        table: "t".to_string(),
        title: None,
        description: None,
        dump: None,
        fields: vec![FieldDef {
            name: "title".to_string(),
            ty: FieldType::String,
            required: true,
            description: None,
        }],
    };
    let value = value(r#"{ "title": "hi", "extra_key": 99 }"#);
    assert!(schema.validate(&value).is_ok());
}

// ── T2: boundary / edge cases ────────────────────────────────────────

#[test]
fn validate_null_value_for_required_field_is_error() {
    let schema = SchemaConfig {
        table: "t".to_string(),
        title: None,
        description: None,
        dump: None,
        fields: vec![FieldDef {
            name: "title".to_string(),
            ty: FieldType::String,
            required: true,
            description: None,
        }],
    };
    let value = value(r#"{ "title": null }"#);
    let err = schema
        .validate(&value)
        .expect_err("null required field must error");
    match err {
        MiniAppError::Validation { field, .. } => assert_eq!(field, "title"),
        other => panic!("expected Validation, got {:?}", other),
    }
}

#[test]
fn validate_null_value_for_optional_field_is_ok() {
    let schema = SchemaConfig {
        table: "t".to_string(),
        title: None,
        description: None,
        dump: None,
        fields: vec![FieldDef {
            name: "state".to_string(),
            ty: FieldType::String,
            required: false,
            description: None,
        }],
    };
    let value = value(r#"{ "state": null }"#);
    assert!(schema.validate(&value).is_ok());
}

#[test]
fn validate_empty_object_with_no_required_fields() {
    let schema = SchemaConfig {
        table: "t".to_string(),
        title: None,
        description: None,
        dump: None,
        fields: vec![],
    };
    let value = value(r#"{}"#);
    assert!(schema.validate(&value).is_ok());
}

#[test]
fn validate_non_object_root_is_error() {
    let schema = SchemaConfig {
        table: "t".to_string(),
        title: None,
        description: None,
        dump: None,
        fields: vec![],
    };
    let value = value(r#"[1, 2, 3]"#);
    let err = schema.validate(&value).expect_err("array root must error");
    assert!(matches!(err, MiniAppError::Validation { .. }));
}

// ── T3: error-path tests ─────────────────────────────────────────────

#[test]
fn validate_required_field_missing_returns_validation_error() {
    let schema = SchemaConfig {
        table: "t".to_string(),
        title: None,
        description: None,
        dump: None,
        fields: vec![FieldDef {
            name: "title".to_string(),
            ty: FieldType::String,
            required: true,
            description: None,
        }],
    };
    let value = value(r#"{}"#);
    let err = schema
        .validate(&value)
        .expect_err("missing required field must error");
    match err {
        MiniAppError::Validation { field, reason } => {
            assert_eq!(field, "title");
            assert!(reason.contains("required"));
        }
        other => panic!("expected Validation, got {:?}", other),
    }
}

#[test]
fn validate_type_mismatch_string_vs_number() {
    let schema = SchemaConfig {
        table: "t".to_string(),
        title: None,
        description: None,
        dump: None,
        fields: vec![FieldDef {
            name: "score".to_string(),
            ty: FieldType::Number,
            required: true,
            description: None,
        }],
    };
    let value = value(r#"{ "score": "not-a-number" }"#);
    let err = schema
        .validate(&value)
        .expect_err("type mismatch must error");
    match err {
        MiniAppError::Validation { field, reason } => {
            assert_eq!(field, "score");
            assert!(
                reason.contains("number"),
                "reason should mention expected type"
            );
            assert!(
                reason.contains("string"),
                "reason should mention actual type"
            );
        }
        other => panic!("expected Validation, got {:?}", other),
    }
}

#[test]
fn validate_type_mismatch_boolean_field() {
    let schema = SchemaConfig {
        table: "t".to_string(),
        title: None,
        description: None,
        dump: None,
        fields: vec![FieldDef {
            name: "active".to_string(),
            ty: FieldType::Boolean,
            required: true,
            description: None,
        }],
    };
    let value = value(r#"{ "active": 1 }"#);
    let err = schema.validate(&value).expect_err("number is not boolean");
    assert!(matches!(err, MiniAppError::Validation { .. }));
}

#[test]
fn validate_type_mismatch_array_field() {
    let schema = SchemaConfig {
        table: "t".to_string(),
        title: None,
        description: None,
        dump: None,
        fields: vec![FieldDef {
            name: "tags".to_string(),
            ty: FieldType::Array,
            required: true,
            description: None,
        }],
    };
    let value = value(r#"{ "tags": "not-an-array" }"#);
    let err = schema.validate(&value).expect_err("string is not array");
    assert!(matches!(err, MiniAppError::Validation { .. }));
}

#[test]
fn all_field_types_match_correctly() {
    let cases: Vec<(FieldType, JsonValue, bool)> = vec![
        (FieldType::String, value(r#""hello""#), true),
        (FieldType::String, value(r#"42"#), false),
        (FieldType::Number, value(r#"2.5"#), true),
        (FieldType::Number, value(r#""3.14""#), false),
        (FieldType::Boolean, value(r#"true"#), true),
        (FieldType::Boolean, value(r#"0"#), false),
        (FieldType::Array, value(r#"[1, 2]"#), true),
        (FieldType::Array, value(r#"{}"#), false),
        (FieldType::Object, value(r#"{}"#), true),
        (FieldType::Object, value(r#"[]"#), false),
    ];
    for (ty, value, expected) in cases {
        assert_eq!(
            ty.matches(&value),
            expected,
            "FieldType::{} .matches({:?}) should be {}",
            ty.as_str(),
            value,
            expected
        );
    }
}

fn field(name: &str, ty: FieldType, required: bool) -> FieldDef {
    FieldDef { name: name.to_string(), ty, required, description: None }
}

fn refusal(schema: &SchemaConfig, text: &str) -> (String, String) {
    match schema.validate(&value(text)) {
        Err(MiniAppError::Validation { field, reason }) => (field, reason),
        other => panic!("expected Validation, got {:?}", other),
    }
}

#[test]
fn refusals_are_exact_and_come_in_order_of_declaration() {
    let schema = SchemaConfig {
        table: "t".to_string(),
        title: None,
        description: None,
        dump: None,
        fields: vec![
            field("b", FieldType::Object, false),
            field("a", FieldType::Number, true),
        ],
    };
    assert_eq!(
        refusal(&schema, "7"),
        ("(root)".to_string(), "value must be a JSON object".to_string())
    );
    assert_eq!(
        refusal(&schema, "{}"),
        ("a".to_string(), "required field missing".to_string())
    );
    assert_eq!(
        refusal(&schema, r#"{"a": "x", "b": []}"#),
        ("b".to_string(), "expected type 'object', got 'array'".to_string())
    );
    assert_eq!(
        refusal(&schema, r#"{"a": "x", "b": null}"#),
        ("a".to_string(), "expected type 'number', got 'string'".to_string())
    );
    assert!(schema.validate(&value(r#"{"a": -1.5, "zzz": null}"#)).is_ok());
}

#[test]
fn field_types_have_names() {
    assert_eq!(FieldType::String.as_str(), "string");
    assert_eq!(FieldType::Number.as_str(), "number");
    assert_eq!(FieldType::Boolean.as_str(), "boolean");
    assert_eq!(FieldType::Array.as_str(), "array");
    assert_eq!(FieldType::Object.as_str(), "object");
}

#[test]
fn objects_that_agree_on_the_fields_are_judged_alike() {
    let schema = SchemaConfig {
        table: "t".to_string(),
        title: None,
        description: None,
        dump: None,
        fields: vec![FieldDef {
            name: "n".to_string(),
            ty: FieldType::Number,
            required: true,
            description: None,
        }],
    };
    for (a, b) in [
        (r#"{"n":1,"x":null,"y":[2]}"#, r#"{"n":1,"z":{}}"#),
        (r#"{"n":"1","x":1}"#, r#"{"n":"1"}"#),
        (r#"{"x":1,"y":2}"#, r#"{"w":"n"}"#),
    ] {
        assert_eq!(schema.validate(&value(a)), schema.validate(&value(b)));
    }
    assert!(schema.validate(&value(r#"{"n":1,"z":{}}"#)).is_ok());
    assert!(schema.validate(&value(r#"{"w":"n"}"#)).is_err());
}
