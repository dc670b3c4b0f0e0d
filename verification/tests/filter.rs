use mini_app_mcp::error::MiniAppError;
use mini_app_mcp::filter::{FilterParam, ListFilter};
use mini_app_mcp::json::{self, JsonNumber, JsonValue};
use mini_app_mcp::schema::{FieldDef, FieldType, SchemaConfig};

// -----------------------------------------------------------------------
// Helpers
// -----------------------------------------------------------------------

fn make_schema(fields: Vec<(&str, FieldType)>) -> SchemaConfig {
    SchemaConfig {
        table: "test".to_string(),
        title: None,
        description: None,
        fields: fields
            .into_iter()
            .map(|(name, ty)| FieldDef {
                name: name.to_string(),
                ty,
                required: false,
                description: None,
            })
            .collect(),
        dump: None,
    }
}

// -----------------------------------------------------------------------
// Validate tests
// -----------------------------------------------------------------------

/// Eq filter against a known string field validates successfully.
#[test]
fn eq_validate_ok() {
    let schema = make_schema(vec![("mailbox", FieldType::String)]);
    let f = ListFilter::Eq {
        field: "mailbox".to_string(),
        value: JsonValue::Text("inbox".to_string()),
    };
    assert!(f.validate(&schema).is_ok());
}

/// In filter with multiple values validates successfully.
#[test]
fn in_validate_ok() {
    let schema = make_schema(vec![("mailbox", FieldType::String)]);
    let f = ListFilter::In {
        field: "mailbox".to_string(),
        values: vec![
            JsonValue::Text("inbox".to_string()),
            JsonValue::Text("sent".to_string()),
        ],
    };
    assert!(f.validate(&schema).is_ok());
}

/// Or filter with nested sub-filters validates successfully (2-level nest).
#[test]
fn or_composition_validate_ok() {
    let schema = make_schema(vec![
        ("mailbox", FieldType::String),
        ("status", FieldType::String),
    ]);
    let f = ListFilter::Or {
        filters: vec![
            ListFilter::Eq {
                field: "mailbox".to_string(),
                value: JsonValue::Text("inbox".to_string()),
            },
            ListFilter::And {
                filters: vec![
                    ListFilter::Eq {
                        field: "mailbox".to_string(),
                        value: JsonValue::Text("sent".to_string()),
                    },
                    ListFilter::Eq {
                        field: "status".to_string(),
                        value: JsonValue::Text("read".to_string()),
                    },
                ],
            },
        ],
    };
    assert!(f.validate(&schema).is_ok());
}

/// And filter with Eq and In sub-filters validates successfully.
#[test]
fn and_composition_validate_ok() {
    let schema = make_schema(vec![
        ("mailbox", FieldType::String),
        ("tag", FieldType::String),
    ]);
    let f = ListFilter::And {
        filters: vec![
            ListFilter::Eq {
                field: "mailbox".to_string(),
                value: JsonValue::Text("inbox".to_string()),
            },
            ListFilter::In {
                field: "tag".to_string(),
                values: vec![
                    JsonValue::Text("urgent".to_string()),
                    JsonValue::Text("flagged".to_string()),
                ],
            },
        ],
    };
    assert!(f.validate(&schema).is_ok());
}

/// Eq filter with a field not in schema is rejected with Validation error.
#[test]
fn unknown_field_reject() {
    let schema = make_schema(vec![("mailbox", FieldType::String)]);
    let f = ListFilter::Eq {
        field: "nonexistent_field".to_string(),
        value: JsonValue::Text("x".to_string()),
    };
    let err = f.validate(&schema).unwrap_err();
    match err {
        MiniAppError::Validation { field, reason } => {
            assert_eq!(field, "nonexistent_field");
            assert!(reason.contains("unknown field"));
        }
        other => panic!("expected Validation error, got {other:?}"),
    }
}

/// Eq filter with a Number value against a String-typed field is rejected.
#[test]
fn typed_scalar_mismatch_reject() {
    let schema = make_schema(vec![("mailbox", FieldType::String)]);
    let f = ListFilter::Eq {
        field: "mailbox".to_string(),
        value: JsonValue::Number(JsonNumber::Unsigned(42)),
    };
    let err = f.validate(&schema).unwrap_err();
    match err {
        MiniAppError::Validation { field, reason } => {
            assert_eq!(field, "mailbox");
            assert!(reason.contains("type mismatch"), "got: {reason}");
        }
        other => panic!("expected Validation error, got {other:?}"),
    }
}

/// Null value is rejected for Eq filter.
#[test]
fn null_value_reject() {
    let schema = make_schema(vec![("mailbox", FieldType::String)]);
    let f = ListFilter::Eq {
        field: "mailbox".to_string(),
        value: JsonValue::Null,
    };
    let err = f.validate(&schema).unwrap_err();
    match err {
        MiniAppError::Validation { field, .. } => assert_eq!(field, "mailbox"),
        other => panic!("expected Validation error, got {other:?}"),
    }
}

/// Bool value is rejected against a String-typed schema field.
#[test]
fn bool_against_string_field_reject() {
    let schema = make_schema(vec![("active", FieldType::String)]);
    let f = ListFilter::Eq {
        field: "active".to_string(),
        value: JsonValue::Bool(true),
    };
    let err = f.validate(&schema).unwrap_err();
    match err {
        MiniAppError::Validation { field, reason } => {
            assert_eq!(field, "active");
            assert!(reason.contains("type mismatch"), "got: {reason}");
        }
        other => panic!("expected Validation error, got {other:?}"),
    }
}

/// Number field accepts a number value.
#[test]
fn number_field_accepts_number_value() {
    let schema = make_schema(vec![("count", FieldType::Number)]);
    let f = ListFilter::Eq {
        field: "count".to_string(),
        value: JsonValue::Number(JsonNumber::Unsigned(42)),
    };
    assert!(f.validate(&schema).is_ok());
}

/// Boolean field accepts a boolean value.
#[test]
fn boolean_field_accepts_bool_value() {
    let schema = make_schema(vec![("active", FieldType::Boolean)]);
    let f = ListFilter::Eq {
        field: "active".to_string(),
        value: JsonValue::Bool(true),
    };
    assert!(f.validate(&schema).is_ok());
}

/// Empty In.values is rejected.
#[test]
fn in_empty_values_reject() {
    let schema = make_schema(vec![("mailbox", FieldType::String)]);
    let f = ListFilter::In {
        field: "mailbox".to_string(),
        values: vec![],
    };
    let err = f.validate(&schema).unwrap_err();
    match err {
        MiniAppError::Validation { reason, .. } => {
            assert!(reason.contains("must not be empty"), "got: {reason}");
        }
        other => panic!("expected Validation error, got {other:?}"),
    }
}

/// Empty Or.filters is rejected.
#[test]
fn or_empty_filters_reject() {
    let schema = make_schema(vec![("mailbox", FieldType::String)]);
    let f = ListFilter::Or { filters: vec![] };
    let err = f.validate(&schema).unwrap_err();
    match err {
        MiniAppError::Validation { reason, .. } => {
            assert!(reason.contains("must not be empty"), "got: {reason}");
        }
        other => panic!("expected Validation error, got {other:?}"),
    }
}

/// Empty And.filters is rejected.
#[test]
fn and_empty_filters_reject() {
    let schema = make_schema(vec![("mailbox", FieldType::String)]);
    let f = ListFilter::And { filters: vec![] };
    let err = f.validate(&schema).unwrap_err();
    match err {
        MiniAppError::Validation { reason, .. } => {
            assert!(reason.contains("must not be empty"), "got: {reason}");
        }
        other => panic!("expected Validation error, got {other:?}"),
    }
}

// -----------------------------------------------------------------------
// build_sql tests
// -----------------------------------------------------------------------

/// Eq filter builds correct SQL fragment and params.
#[test]
fn eq_build_sql() {
    let f = ListFilter::Eq {
        field: "mailbox".to_string(),
        value: JsonValue::Text("inbox".to_string()),
    };
    let (sql, params) = f.build_sql().unwrap();
    assert_eq!(sql, "json_extract(data, '$.mailbox') = ?");
    assert_eq!(params, vec![FilterParam::Text("inbox".to_string())]);
}

/// In filter builds correct SQL fragment with multiple placeholders.
#[test]
fn in_build_sql() {
    let f = ListFilter::In {
        field: "mailbox".to_string(),
        values: vec![
            JsonValue::Text("inbox".to_string()),
            JsonValue::Text("sent".to_string()),
        ],
    };
    let (sql, params) = f.build_sql().unwrap();
    assert_eq!(sql, "json_extract(data, '$.mailbox') IN (?, ?)");
    assert_eq!(
        params,
        vec![
            FilterParam::Text("inbox".to_string()),
            FilterParam::Text("sent".to_string()),
        ]
    );
}

/// Or filter builds parenthesised OR expression.
#[test]
fn or_build_sql() {
    let f = ListFilter::Or {
        filters: vec![
            ListFilter::Eq {
                field: "mailbox".to_string(),
                value: JsonValue::Text("inbox".to_string()),
            },
            ListFilter::Eq {
                field: "mailbox".to_string(),
                value: JsonValue::Text("sent".to_string()),
            },
        ],
    };
    let (sql, params) = f.build_sql().unwrap();
    assert_eq!(
        sql,
        "(json_extract(data, '$.mailbox') = ? OR json_extract(data, '$.mailbox') = ?)"
    );
    assert_eq!(
        params,
        vec![
            FilterParam::Text("inbox".to_string()),
            FilterParam::Text("sent".to_string()),
        ]
    );
}

/// And filter builds parenthesised AND expression.
#[test]
fn and_build_sql() {
    let f = ListFilter::And {
        filters: vec![
            ListFilter::Eq {
                field: "mailbox".to_string(),
                value: JsonValue::Text("inbox".to_string()),
            },
            ListFilter::Eq {
                field: "status".to_string(),
                value: JsonValue::Text("unread".to_string()),
            },
        ],
    };
    let (sql, params) = f.build_sql().unwrap();
    assert_eq!(
        sql,
        "(json_extract(data, '$.mailbox') = ? AND json_extract(data, '$.status') = ?)"
    );
    assert_eq!(
        params,
        vec![
            FilterParam::Text("inbox".to_string()),
            FilterParam::Text("unread".to_string()),
        ]
    );
}

/// Nested Or-of-And builds structurally correct SQL (mailbox use case).
#[test]
fn nested_or_of_and_build_sql() {
    // OR( AND(mailbox=inbox, status=unread), AND(mailbox=sent, status=read) )
    let f = ListFilter::Or {
        filters: vec![
            ListFilter::And {
                filters: vec![
                    ListFilter::Eq {
                        field: "mailbox".to_string(),
                        value: JsonValue::Text("inbox".to_string()),
                    },
                    ListFilter::Eq {
                        field: "status".to_string(),
                        value: JsonValue::Text("unread".to_string()),
                    },
                ],
            },
            ListFilter::And {
                filters: vec![
                    ListFilter::Eq {
                        field: "mailbox".to_string(),
                        value: JsonValue::Text("sent".to_string()),
                    },
                    ListFilter::Eq {
                        field: "status".to_string(),
                        value: JsonValue::Text("read".to_string()),
                    },
                ],
            },
        ],
    };
    let (sql, params) = f.build_sql().unwrap();
    assert_eq!(
        sql,
        "((json_extract(data, '$.mailbox') = ? AND json_extract(data, '$.status') = ?) \
         OR (json_extract(data, '$.mailbox') = ? AND json_extract(data, '$.status') = ?))"
    );
    assert_eq!(
        params,
        vec![
            FilterParam::Text("inbox".to_string()),
            FilterParam::Text("unread".to_string()),
            FilterParam::Text("sent".to_string()),
            FilterParam::Text("read".to_string()),
        ]
    );
}

fn failure(f: &ListFilter, schema: &SchemaConfig) -> (String, String) {
    match f.validate(schema) {
        Err(MiniAppError::Validation { field, reason }) => (field, reason),
        other => panic!("expected Validation error, got {other:?}"),
    }
}

#[test]
fn filter_reasons_are_exact() {
    let schema = make_schema(vec![("mailbox", FieldType::String), ("n", FieldType::Number)]);
    let eq = |field: &str, text: &str| ListFilter::Eq {
        field: field.to_string(),
        value: json::parse(text).unwrap(),
    };
    assert_eq!(
        failure(&eq("x", "1"), &schema),
        (
            "x".to_string(),
            "unknown field 'x' — only schema-registered fields are allowed in filter".to_string()
        )
    );
    assert_eq!(
        failure(&eq("n", "null"), &schema).1,
        "filter value for field 'n' must not be null"
    );
    assert_eq!(
        failure(&eq("n", "[1]"), &schema).1,
        "filter value for field 'n' must be a scalar (string, number, or boolean), got an object or array"
    );
    assert_eq!(
        failure(&eq("mailbox", "1"), &schema).1,
        "filter value for field 'mailbox' has type mismatch: expected string, got number"
    );
    let first_bad = ListFilter::And {
        filters: vec![eq("n", "1"), eq("n", "true"), eq("x", "1")],
    };
    assert_eq!(
        failure(&first_bad, &schema).1,
        "filter value for field 'n' has type mismatch: expected number, got boolean"
    );
}

#[test]
fn like_is_for_string_fields() {
    let schema = make_schema(vec![("mailbox", FieldType::String), ("n", FieldType::Number)]);
    let like = |field: &str| ListFilter::Like {
        field: field.to_string(),
        pattern: "%in_x%".to_string(),
    };
    assert!(like("mailbox").validate(&schema).is_ok());
    assert_eq!(
        failure(&like("n"), &schema),
        (
            "n".to_string(),
            "like filter on field 'n' requires type string, got number".to_string()
        )
    );
    assert!(like("other").validate(&schema).is_err());
    let (sql, params) = like("mailbox").build_sql().unwrap();
    assert_eq!(sql, "json_extract(data, '$.mailbox') LIKE ?");
    assert_eq!(params, vec![FilterParam::Text("%in_x%".to_string())]);
}

#[test]
fn values_never_reach_the_text() {
    let build = |a: &str, b: &str| {
        ListFilter::Or {
            filters: vec![
                ListFilter::Eq { field: "t".to_string(), value: json::parse(a).unwrap() },
                ListFilter::In {
                    field: "u".to_string(),
                    values: vec![json::parse(b).unwrap(), json::parse(a).unwrap()],
                },
            ],
        }
        .build_sql()
        .unwrap()
    };
    let (sql, params) = build("\"') OR 1=1 --\"", "7");
    let (other, _) = build("true", "\"?\"");
    assert_eq!(sql, other);
    assert_eq!(
        sql,
        "(json_extract(data, '$.t') = ? OR json_extract(data, '$.u') IN (?, ?))"
    );
    assert_eq!(sql.matches('?').count(), params.len());
    assert_eq!(
        params,
        vec![
            FilterParam::Text("') OR 1=1 --".to_string()),
            FilterParam::Number(JsonNumber::Unsigned(7)),
            FilterParam::Text("') OR 1=1 --".to_string()),
        ]
    );
}

#[test]
fn unbindable_values_do_not_build() {
    let f = ListFilter::In {
        field: "t".to_string(),
        values: vec![JsonValue::Bool(true), JsonValue::Null],
    };
    match f.build_sql() {
        Err(MiniAppError::Validation { field, reason }) => {
            assert_eq!(field, "t");
            assert_eq!(reason, "filter value for field 't' is not a bindable scalar");
        }
        other => panic!("expected Validation error, got {other:?}"),
    }
}

#[test]
fn unknown_fields_are_refused_at_any_depth() {
    let schema = make_schema(vec![("n", FieldType::Number)]);
    let good = || ListFilter::Eq {
        field: "n".to_string(),
        value: json::parse("1").unwrap(),
    };
    let deep = |inner: ListFilter| ListFilter::Or {
        filters: vec![
            good(),
            ListFilter::And {
                filters: vec![good(), ListFilter::Or { filters: vec![inner] }],
            },
        ],
    };
    assert!(deep(good()).validate(&schema).is_ok());
    assert!(deep(ListFilter::Eq {
        field: "m".to_string(),
        value: json::parse("1").unwrap(),
    })
    .validate(&schema)
    .is_err());
    assert!(deep(ListFilter::In {
        field: "n".to_string(),
        values: vec![json::parse("1").unwrap(), json::parse("\"1\"").unwrap()],
    })
    .validate(&schema)
    .is_err());
    assert!(deep(ListFilter::And { filters: vec![] }).validate(&schema).is_err());
}
