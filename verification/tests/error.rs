use mini_app_mcp::error::codes;
use mini_app_mcp::error::MiniAppError;
use serde_json::Value;

/// The structured data that a client gets, read back from its text.
fn structured(err: &MiniAppError) -> Value {
    serde_json::from_str(&err.to_error_data().data.to_text()).expect("data must be JSON")
}

// Every variant comes with a data object
#[test]
fn validation_error_has_structured_data() {
    let err = MiniAppError::Validation {
        field: "title".to_string(),
        reason: "required field missing".to_string(),
    };
    let data = structured(&err);
    assert_eq!(data["code"], Value::String("VALIDATION_ERROR".to_string()));
    assert_eq!(data["field"], Value::String("title".to_string()));
    assert!(data["message"].is_string());
}

#[test]
fn not_found_error_has_structured_data() {
    let err = MiniAppError::NotFound {
        id: "abc-123".to_string(),
    };
    let data = structured(&err);
    assert_eq!(data["code"], Value::String("NOT_FOUND".to_string()));
    assert_eq!(data["id"], Value::String("abc-123".to_string()));
}

#[test]
fn schema_error_has_structured_data() {
    let err = MiniAppError::Schema("bad yaml".to_string());
    let data = structured(&err);
    assert_eq!(data["code"], Value::String("SCHEMA_ERROR".to_string()));
}

#[test]
fn config_error_has_structured_data() {
    let err = MiniAppError::Config("MINI_APP_DB not set".to_string());
    let data = structured(&err);
    assert_eq!(data["code"], Value::String("CONFIG_ERROR".to_string()));
}

// TableNotFound and TableRequired have structured data
#[test]
fn table_not_found_error_has_structured_data_with_table_field() {
    let err = MiniAppError::TableNotFound {
        table: "my_table".to_string(),
    };
    let data = structured(&err);
    assert_eq!(data["code"], Value::String("TABLE_NOT_FOUND".to_string()));
    assert_eq!(data["table"], Value::String("my_table".to_string()));
    assert!(data["message"].is_string());
}

#[test]
fn table_required_error_has_structured_data() {
    let err = MiniAppError::TableRequired;
    let data = structured(&err);
    assert_eq!(data["code"], Value::String("TABLE_REQUIRED".to_string()));
    assert!(data["message"].is_string());
}

// empty strings are still valid structured errors
#[test]
fn validation_error_empty_field_name() {
    let err = MiniAppError::Validation {
        field: String::new(),
        reason: String::new(),
    };
    let data = structured(&err);
    assert_eq!(data["code"], "VALIDATION_ERROR");
    // field key must still be present
    assert!(data.get("field").is_some());
}

// empty table name in TableNotFound
#[test]
fn table_not_found_empty_table_name() {
    let err = MiniAppError::TableNotFound {
        table: String::new(),
    };
    let data = structured(&err);
    assert_eq!(data["code"], "TABLE_NOT_FOUND");
    assert!(data.get("table").is_some());
}

// code() returns the right constant for all variants
#[test]
fn error_code_all_variants() {
    let cases: Vec<(&str, MiniAppError)> = vec![
        (
            codes::VALIDATION_ERROR,
            MiniAppError::Validation {
                field: "f".into(),
                reason: "r".into(),
            },
        ),
        (codes::NOT_FOUND, MiniAppError::NotFound { id: "x".into() }),
        (codes::SCHEMA_ERROR, MiniAppError::Schema("s".into())),
        (
            codes::IO_ERROR,
            MiniAppError::Io("e".into()),
        ),
        (codes::CONFIG_ERROR, MiniAppError::Config("c".into())),
        (
            codes::TABLE_NOT_FOUND,
            MiniAppError::TableNotFound { table: "t".into() },
        ),
        (codes::TABLE_REQUIRED, MiniAppError::TableRequired),
        (
            codes::SCHEMA_EXISTS,
            MiniAppError::SchemaExists {
                table: "my_table".into(),
            },
        ),
        (
            codes::BACKUP_ERROR,
            MiniAppError::Backup("disk full".into()),
        ),
        (
            codes::SNAPSHOT_ERROR,
            MiniAppError::Snapshot("snapshot failed".into()),
        ),
        (
            codes::BATCH_ABORTED,
            MiniAppError::BatchAborted {
                op_index: 2,
                reason: "schema not found".into(),
            },
        ),
        (
            codes::MATERIALIZE_DEST_RELATIVE,
            MiniAppError::MaterializeDestRelative {
                path: "relative/path".into(),
            },
        ),
        (
            codes::MATERIALIZE_DEST_INVALID,
            MiniAppError::MaterializeDestInvalid {
                path: "/bad/path".into(),
                reason: "parent dir not writable".into(),
            },
        ),
        (
            codes::MATERIALIZE_IO_ERROR,
            MiniAppError::MaterializeIo("write failed".into()),
        ),
        (
            codes::MATERIALIZE_SHA256_ERROR,
            MiniAppError::MaterializeSha256("task panicked".into()),
        ),
        (
            codes::MATERIALIZE_ROW_NOT_FOUND,
            MiniAppError::MaterializeRowNotFound { id: "row-1".into() },
        ),
        (
            codes::MATERIALIZE_EMPTY_RESULT,
            MiniAppError::MaterializeEmptyResult,
        ),
        (
            codes::MATERIALIZE_FORMAT_ERROR,
            MiniAppError::MaterializeFormatError("yaml error".into()),
        ),
        (
            codes::MATERIALIZE_FIELD_UNKNOWN,
            MiniAppError::MaterializeFieldUnknown {
                field: "unknown_field".into(),
            },
        ),
        (
            codes::MATERIALIZE_INVALID_PARAM,
            MiniAppError::MaterializeInvalidParam {
                field: "concat".into(),
                reason: "concat=true requires ByFilter selector".into(),
            },
        ),
        (
            codes::ALIAS_NOT_FOUND,
            MiniAppError::AliasNotFound {
                name: "my_alias".into(),
            },
        ),
        (
            codes::ALIAS_ALREADY_EXISTS,
            MiniAppError::AliasAlreadyExists {
                name: "my_alias".into(),
            },
        ),
        (
            codes::ALIAS_PARAMS_REQUIRED,
            MiniAppError::AliasParamsRequired {
                name: "my_alias".into(),
            },
        ),
        (
            codes::ALIAS_TEMPLATE_ERROR,
            MiniAppError::AliasTemplateError("template syntax error".into()),
        ),
        (
            codes::AMBIGUOUS_ID,
            MiniAppError::AmbiguousId {
                id_prefix: "abc".into(),
                candidates: vec!["abc-1".into(), "abc-2".into()],
            },
        ),
    ];
    for (expected_code, err) in cases {
        assert_eq!(
            err.code(),
            expected_code,
            "wrong code for variant containing code {}",
            expected_code
        );
    }
}

// all variants produce Some(data) — no plain-text-only path
#[test]
fn all_variants_produce_some_data() {
    let errs: Vec<MiniAppError> = vec![
        MiniAppError::Validation {
            field: "f".into(),
            reason: "r".into(),
        },
        MiniAppError::NotFound { id: "id".into() },
        MiniAppError::Schema("s".into()),
        MiniAppError::Io("io".into()),
        MiniAppError::Config("c".into()),
        MiniAppError::TableNotFound { table: "t".into() },
        MiniAppError::TableRequired,
        MiniAppError::SchemaExists {
            table: "tbl".into(),
        },
        MiniAppError::Backup("err".into()),
        MiniAppError::Snapshot("err".into()),
        MiniAppError::BatchAborted {
            op_index: 0,
            reason: "reason".into(),
        },
        MiniAppError::MaterializeDestRelative {
            path: "relative/path".into(),
        },
        MiniAppError::MaterializeDestInvalid {
            path: "/bad/path".into(),
            reason: "parent not writable".into(),
        },
        MiniAppError::MaterializeIo("write failed".into()),
        MiniAppError::MaterializeSha256("task panicked".into()),
        MiniAppError::MaterializeRowNotFound { id: "row-1".into() },
        MiniAppError::MaterializeEmptyResult,
        MiniAppError::MaterializeFormatError("yaml error".into()),
        MiniAppError::MaterializeFieldUnknown {
            field: "unknown_field".into(),
        },
        MiniAppError::MaterializeInvalidParam {
            field: "concat".into(),
            reason: "requires ByFilter".into(),
        },
        MiniAppError::AliasNotFound {
            name: "my_alias".into(),
        },
        MiniAppError::AliasAlreadyExists {
            name: "my_alias".into(),
        },
        MiniAppError::AliasParamsRequired {
            name: "my_alias".into(),
        },
        MiniAppError::AliasTemplateError("template syntax error".into()),
        MiniAppError::AmbiguousId {
            id_prefix: "abc".into(),
            candidates: vec!["abc-1".into(), "abc-2".into()],
        },
    ];
    for err in errs {
        let data = structured(&err);
        assert!(data.is_object());
        // Every structured error must carry a "code" key
        assert!(
            data.get("code").is_some(),
            "data.code must be present for Agent parsing"
        );
    }
}

// SchemaExists variant produces structured data with table field
#[test]
fn schema_exists_error_has_structured_data() {
    let err = MiniAppError::SchemaExists {
        table: "orders".to_string(),
    };
    let data = structured(&err);
    assert_eq!(data["code"], Value::String("SCHEMA_EXISTS".to_string()));
    assert_eq!(data["table"], Value::String("orders".to_string()));
    assert!(data["message"].is_string());
}

// Backup variant produces structured data
#[test]
fn backup_error_has_structured_data() {
    let err = MiniAppError::Backup("disk full while writing backup".to_string());
    let data = structured(&err);
    assert_eq!(data["code"], Value::String("BACKUP_ERROR".to_string()));
    assert!(data["message"].is_string());
    // Backup uses the default arm: only code + message, no extra fields
    assert!(data.get("table").is_none());
}

// BatchAborted variant produces structured data with op_index and reason
#[test]
fn batch_aborted_error_has_structured_data() {
    let err = MiniAppError::BatchAborted {
        op_index: 3,
        reason: "table not found".to_string(),
    };
    let data = structured(&err);
    assert_eq!(data["code"], Value::String("BATCH_ABORTED".to_string()));
    assert_eq!(data["op_index"], Value::from(3_usize));
    assert_eq!(data["reason"], Value::String("table not found".to_string()));
    assert!(data["message"].is_string());
}

// SchemaExists with empty table name still produces valid structured error
#[test]
fn schema_exists_empty_table_name() {
    let err = MiniAppError::SchemaExists {
        table: String::new(),
    };
    let data = structured(&err);
    assert_eq!(data["code"], "SCHEMA_EXISTS");
    assert!(data.get("table").is_some());
}

// BatchAborted at op_index 0 (first op fails)
#[test]
fn batch_aborted_at_first_op() {
    let err = MiniAppError::BatchAborted {
        op_index: 0,
        reason: "validation failed".to_string(),
    };
    let data = structured(&err);
    assert_eq!(data["code"], "BATCH_ABORTED");
    assert_eq!(data["op_index"], Value::from(0_usize));
}

// Backup error code is BACKUP_ERROR (not STORAGE_ERROR or IO_ERROR)
#[test]
fn backup_error_code_is_not_storage_or_io() {
    let err = MiniAppError::Backup("some rusqlite error".to_string());
    assert_eq!(err.code(), codes::BACKUP_ERROR);
    assert_ne!(err.code(), codes::STORAGE_ERROR);
    assert_ne!(err.code(), codes::IO_ERROR);
}

// --- Materialize variants: 9 individual tests ---

// MaterializeDestRelative carries the path field in structured data
#[test]
fn materialize_dest_relative_has_path_field() {
    let err = MiniAppError::MaterializeDestRelative {
        path: "some/relative".to_string(),
    };
    assert_eq!(err.code(), codes::MATERIALIZE_DEST_RELATIVE);
    let data = structured(&err);
    assert_eq!(data["code"], "MATERIALIZE_DEST_RELATIVE");
    assert_eq!(data["path"], "some/relative");
    assert!(data["message"].is_string());
}

// MaterializeDestInvalid carries path and reason fields
#[test]
fn materialize_dest_invalid_has_path_and_reason_fields() {
    let err = MiniAppError::MaterializeDestInvalid {
        path: "/no/such/parent".to_string(),
        reason: "parent dir not writable".to_string(),
    };
    assert_eq!(err.code(), codes::MATERIALIZE_DEST_INVALID);
    let data = structured(&err);
    assert_eq!(data["code"], "MATERIALIZE_DEST_INVALID");
    assert_eq!(data["path"], "/no/such/parent");
    assert_eq!(data["reason"], "parent dir not writable");
    assert!(data["message"].is_string());
}

// MaterializeIo produces structured data with code and message
#[test]
fn materialize_io_error_has_structured_data() {
    let err = MiniAppError::MaterializeIo("write failed: disk full".to_string());
    assert_eq!(err.code(), codes::MATERIALIZE_IO_ERROR);
    let data = structured(&err);
    assert_eq!(data["code"], "MATERIALIZE_IO_ERROR");
    assert!(data["message"].is_string());
    // Falls through to default arm — no extra fields
    assert!(data.get("path").is_none());
}

// MaterializeSha256 produces structured data with code and message
#[test]
fn materialize_sha256_error_has_structured_data() {
    let err = MiniAppError::MaterializeSha256("spawn_blocking panicked".to_string());
    assert_eq!(err.code(), codes::MATERIALIZE_SHA256_ERROR);
    let data = structured(&err);
    assert_eq!(data["code"], "MATERIALIZE_SHA256_ERROR");
    assert!(data["message"].is_string());
}

// MaterializeRowNotFound carries the id field
#[test]
fn materialize_row_not_found_has_id_field() {
    let err = MiniAppError::MaterializeRowNotFound {
        id: "row-abc".to_string(),
    };
    assert_eq!(err.code(), codes::MATERIALIZE_ROW_NOT_FOUND);
    let data = structured(&err);
    assert_eq!(data["code"], "MATERIALIZE_ROW_NOT_FOUND");
    assert_eq!(data["id"], "row-abc");
    assert!(data["message"].is_string());
}

// MaterializeEmptyResult (unit variant) produces structured data
#[test]
fn materialize_empty_result_has_structured_data() {
    let err = MiniAppError::MaterializeEmptyResult;
    assert_eq!(err.code(), codes::MATERIALIZE_EMPTY_RESULT);
    let data = structured(&err);
    assert_eq!(data["code"], "MATERIALIZE_EMPTY_RESULT");
    assert!(data["message"].is_string());
}

// MaterializeFormatError code is distinct from SCHEMA_ERROR
#[test]
fn materialize_format_error_has_structured_data() {
    let err = MiniAppError::MaterializeFormatError("yaml: unexpected key".to_string());
    assert_eq!(err.code(), codes::MATERIALIZE_FORMAT_ERROR);
    assert_ne!(err.code(), codes::SCHEMA_ERROR);
    let data = structured(&err);
    assert_eq!(data["code"], "MATERIALIZE_FORMAT_ERROR");
    assert!(data["message"].is_string());
}

// MaterializeFieldUnknown carries the field name
#[test]
fn materialize_field_unknown_has_field_name() {
    let err = MiniAppError::MaterializeFieldUnknown {
        field: "nonexistent_col".to_string(),
    };
    assert_eq!(err.code(), codes::MATERIALIZE_FIELD_UNKNOWN);
    let data = structured(&err);
    assert_eq!(data["code"], "MATERIALIZE_FIELD_UNKNOWN");
    assert_eq!(data["field"], "nonexistent_col");
    assert!(data["message"].is_string());
}

// MaterializeInvalidParam carries field and reason
#[test]
fn materialize_invalid_param_has_field_and_reason() {
    let err = MiniAppError::MaterializeInvalidParam {
        field: "concat".to_string(),
        reason: "concat=true requires ByFilter selector".to_string(),
    };
    assert_eq!(err.code(), codes::MATERIALIZE_INVALID_PARAM);
    let data = structured(&err);
    assert_eq!(data["code"], "MATERIALIZE_INVALID_PARAM");
    assert_eq!(data["field"], "concat");
    assert_eq!(data["reason"], "concat=true requires ByFilter selector");
    assert!(data["message"].is_string());
}

// AliasNotFound has code ALIAS_NOT_FOUND and carries name field
#[test]
fn alias_not_found_error_has_structured_data() {
    let err = MiniAppError::AliasNotFound {
        name: "recent_open".to_string(),
    };
    assert_eq!(err.code(), codes::ALIAS_NOT_FOUND);
    let data = structured(&err);
    assert_eq!(data["code"], Value::String("ALIAS_NOT_FOUND".to_string()));
    assert_eq!(data["name"], Value::String("recent_open".to_string()));
    assert!(data["message"].is_string());
}

// AliasAlreadyExists has code ALIAS_ALREADY_EXISTS and carries name field
#[test]
fn alias_already_exists_error_has_structured_data() {
    let err = MiniAppError::AliasAlreadyExists {
        name: "recent_open".to_string(),
    };
    assert_eq!(err.code(), codes::ALIAS_ALREADY_EXISTS);
    let data = structured(&err);
    assert_eq!(
        data["code"],
        Value::String("ALIAS_ALREADY_EXISTS".to_string())
    );
    assert_eq!(data["name"], Value::String("recent_open".to_string()));
    assert!(data["message"].is_string());
}

// AmbiguousId has code AMBIGUOUS_ID, carries id_prefix and candidates array
#[test]
fn ambiguous_id_error_has_structured_data() {
    let err = MiniAppError::AmbiguousId {
        id_prefix: "abc1".to_string(),
        candidates: vec![
            "abc1def2-0000-0000-0000-000000000001".to_string(),
            "abc1def2-0000-0000-0000-000000000002".to_string(),
        ],
    };
    assert_eq!(err.code(), codes::AMBIGUOUS_ID);
    let data = structured(&err);
    assert_eq!(data["code"], Value::String("AMBIGUOUS_ID".to_string()));
    assert_eq!(data["id_prefix"], Value::String("abc1".to_string()));
    assert!(data["message"].is_string());
    // candidates must be a JSON array
    let candidates = data["candidates"]
        .as_array()
        .expect("candidates must be a JSON array");
    assert_eq!(candidates.len(), 2);
    assert_eq!(
        candidates[0],
        Value::String("abc1def2-0000-0000-0000-000000000001".to_string())
    );
    assert_eq!(
        candidates[1],
        Value::String("abc1def2-0000-0000-0000-000000000002".to_string())
    );
}

#[test]
fn table_not_found_converts_to_mcp_error_with_table_field() {
    let err = MiniAppError::TableNotFound {
        table: "my_table".to_string(),
    };
    let data = structured(&err);
    assert_eq!(data["code"], "TABLE_NOT_FOUND");
    assert_eq!(data["table"], "my_table");
}

#[test]
fn table_required_converts_to_mcp_error_with_code() {
    let err = MiniAppError::TableRequired;
    let data = structured(&err);
    assert_eq!(data["code"], "TABLE_REQUIRED");
}

#[test]
fn messages_are_exact() {
    let cases: Vec<(MiniAppError, &str)> = vec![
        (
            MiniAppError::Validation { field: "title".into(), reason: "required field missing".into() },
            "validation error on field 'title': required field missing",
        ),
        (MiniAppError::NotFound { id: "abc-123".into() }, "row not found: abc-123"),
        (MiniAppError::Schema("bad".into()), "schema parse error: bad"),
        (MiniAppError::Storage("locked".into()), "storage error: locked"),
        (MiniAppError::Io("gone".into()), "io error: gone"),
        (MiniAppError::Config("none".into()), "config error: none"),
        (MiniAppError::TableNotFound { table: "t".into() }, "table not found: t"),
        (MiniAppError::TableRequired, "table argument is required in multi-table mode"),
        (MiniAppError::SchemaExists { table: "t".into() }, "schema already exists: t"),
        (MiniAppError::Backup("b".into()), "backup error: b"),
        (MiniAppError::Snapshot("s".into()), "snapshot error: s"),
        (
            MiniAppError::BatchAborted { op_index: 12, reason: "r".into() },
            "batch aborted at op #12: r",
        ),
        (
            MiniAppError::MaterializeDestRelative { path: "p".into() },
            "materialize dest must be absolute: p",
        ),
        (
            MiniAppError::MaterializeDestInvalid { path: "p".into(), reason: "r".into() },
            "materialize dest invalid 'p': r",
        ),
        (MiniAppError::MaterializeIo("x".into()), "materialize io error: x"),
        (MiniAppError::MaterializeSha256("x".into()), "materialize sha256 error: x"),
        (MiniAppError::MaterializeRowNotFound { id: "i".into() }, "materialize row not found: i"),
        (MiniAppError::MaterializeEmptyResult, "materialize filter matched zero rows"),
        (MiniAppError::MaterializeFormatError("x".into()), "materialize format error: x"),
        (
            MiniAppError::MaterializeFieldUnknown { field: "f".into() },
            "materialize unknown field: f",
        ),
        (
            MiniAppError::MaterializeInvalidParam { field: "f".into(), reason: "r".into() },
            "materialize invalid param 'f': r",
        ),
        (MiniAppError::AliasNotFound { name: "n".into() }, "alias not found: n"),
        (MiniAppError::AliasAlreadyExists { name: "n".into() }, "alias already exists: n"),
        (
            MiniAppError::AliasParamsRequired { name: "n".into() },
            "alias 'n' requires params but none were provided",
        ),
        (MiniAppError::AliasTemplateError("x".into()), "alias template render error: x"),
        (
            MiniAppError::AmbiguousId {
                id_prefix: "ab".into(),
                candidates: vec!["ab1".into(), "ab2".into(), "ab3".into()],
            },
            "ambiguous id prefix 'ab': 3 candidates",
        ),
    ];
    for (err, text) in &cases {
        assert_eq!(err.message(), *text);
        assert_eq!(structured(err)["message"], *text);
        assert_eq!(err.to_error_data().message, *text);
    }
    for (i, (a, _)) in cases.iter().enumerate() {
        for (j, (b, _)) in cases.iter().enumerate() {
            assert_eq!(a.code() == b.code(), i == j);
        }
    }
}
