use mini_app_mcp::error::MiniAppError;
use mini_app_mcp::filter::{FilterParam, ListFilter};
use mini_app_mcp::json::{self, JsonValue};
use mini_app_mcp::schema::{FieldDef, FieldType, SchemaConfig};
use mini_app_mcp::store::{
    epoch_seconds, now_secs, read_row, read_rows, shallow_merge, Store, StoredRow, UpdateMode,
};

fn value(text: &str) -> JsonValue {
    json::parse(text).expect("valid JSON")
}

fn plain(v: &JsonValue) -> serde_json::Value {
    serde_json::from_str(&v.to_text()).expect("JSON text")
}

fn make_schema(fields: Vec<FieldDef>) -> SchemaConfig {
    SchemaConfig {
        table: "test".into(),
        title: None,
        description: None,
        fields,
        dump: None,
    }
}

fn field(name: &str, ty: FieldType, required: bool) -> FieldDef {
    FieldDef {
        name: name.into(),
        ty,
        required,
        description: None,
    }
}

fn make_test_store() -> Store {
    Store::open(make_schema(vec![
        field("title", FieldType::String, true),
        field("state", FieldType::String, false),
    ]))
}

#[test]
fn shallow_merge_preserves_absent_fields() {
    let schema = make_schema(vec![
        field("a", FieldType::Number, true),
        field("b", FieldType::Number, false),
    ]);
    let current = value(r#"{"a": 1, "b": 2}"#);
    let patch = value(r#"{"a": 9}"#);
    let merged = plain(&shallow_merge(current, patch, &schema).expect("merge ok"));
    assert_eq!(merged["a"], 9, "patched field must be updated");
    assert_eq!(
        merged["b"], 2,
        "absent patch field must be preserved from current"
    );
}

#[test]
fn shallow_merge_deletes_null_for_optional_field() {
    let schema = make_schema(vec![
        field("a", FieldType::Number, true),
        field("b", FieldType::Number, false),
    ]);
    let current = value(r#"{"a": 1, "b": 2}"#);
    let patch = value(r#"{"b": null}"#);
    let merged = plain(&shallow_merge(current, patch, &schema).expect("merge ok"));
    assert_eq!(merged["a"], 1);
    assert!(
        merged.get("b").is_none(),
        "null-patched optional field must be physically removed (not set to null)"
    );
}

#[test]
fn shallow_merge_errors_on_null_for_required_field() {
    let schema = make_schema(vec![field("title", FieldType::String, true)]);
    let current = value(r#"{"title": "hello"}"#);
    let patch = value(r#"{"title": null}"#);
    let err = shallow_merge(current, patch, &schema).expect_err("must error");
    match err {
        MiniAppError::Validation { field, reason } => {
            assert_eq!(field, "title");
            assert!(
                reason.contains("required field cannot be deleted via null"),
                "unexpected reason: {reason}"
            );
        }
        other => panic!("expected Validation error, got: {other:?}"),
    }
}

#[test]
fn shallow_merge_replaces_nested_object_wholesale() {
    let schema = make_schema(vec![field("cfg", FieldType::Object, false)]);
    let current = value(r#"{"cfg": {"x": 1, "y": 2}}"#);
    let patch = value(r#"{"cfg": {"x": 9}}"#);
    let merged = plain(&shallow_merge(current, patch, &schema).expect("merge ok"));
    assert_eq!(merged["cfg"]["x"], 9, "x must be updated");
    assert!(
        merged["cfg"].get("y").is_none(),
        "y must be absent (nested object replaced wholesale, not deep-merged)"
    );
}

#[test]
fn shallow_merge_rejects_non_object_patch() {
    let schema = make_schema(vec![]);
    let current = value(r#"{"a": 1}"#);

    for bad_patch in ["[1, 2, 3]", "42", "\"string\""] {
        let err = shallow_merge(current.duplicate(), value(bad_patch), &schema)
            .expect_err("non-object patch must be rejected");
        match err {
            MiniAppError::Validation { field, .. } => {
                assert_eq!(field, "(root)", "error field must be '(root)'");
            }
            other => panic!("expected Validation error, got: {other:?}"),
        }
    }
}

#[test]
fn merging_twice_or_nothing() {
    let schema = make_schema(vec![]);
    let once = shallow_merge(
        value(r#"{"a": 1, "b": 2}"#),
        value(r#"{"b": null, "c": [3]}"#),
        &schema,
    )
    .unwrap();
    let twice =
        shallow_merge(once.duplicate(), value(r#"{"b": null, "c": [3]}"#), &schema).unwrap();
    assert_eq!(once, twice);
    let same = shallow_merge(once.duplicate(), value("{}"), &schema).unwrap();
    assert_eq!(once, same);
    match shallow_merge(value("[]"), value("{}"), &schema) {
        Err(MiniAppError::Validation { field, reason }) => {
            assert_eq!(field, "(root)");
            assert_eq!(reason, "stored row is not a JSON object");
        }
        other => panic!("unexpected {other:?}"),
    }
}

#[test]
fn created_rows_have_fresh_ids_and_equal_times() {
    let store = make_test_store();
    let before = now_secs();
    let a = store.create(value(r#"{"title": "x"}"#)).expect("create");
    let b = store.create(value(r#"{"title": "x"}"#)).expect("create");
    let after = now_secs();
    assert_ne!(a.record.id, b.record.id);
    let id: Vec<char> = a.record.id.chars().collect();
    assert_eq!(id.len(), 36);
    for (i, c) in id.iter().enumerate() {
        match i {
            8 | 13 | 18 | 23 => assert_eq!(*c, '-'),
            14 => assert_eq!(*c, '4'),
            _ => assert!(c.is_ascii_digit() || ('a'..='f').contains(c)),
        }
    }
    assert!(matches!(id[19], '8' | '9' | 'a' | 'b'));
    assert_eq!(a.record.created_at, a.record.updated_at);
    assert!(before <= a.record.created_at && a.record.created_at <= after);
    assert_eq!(a.data_text, r#"{"title":"x"}"#);
    assert!(before > 1_600_000_000);
}

#[test]
fn rows_that_do_not_conform_are_not_created() {
    let store = make_test_store();
    match store.create(value(r#"{"state": "open"}"#)) {
        Err(MiniAppError::Validation { field, reason }) => {
            assert_eq!(field, "title");
            assert_eq!(reason, "required field missing");
        }
        other => panic!("unexpected {other:?}"),
    }
    match store.create(value(r#"{"title": 12345}"#)) {
        Err(MiniAppError::Validation { field, .. }) => assert_eq!(field, "title"),
        other => panic!("unexpected {other:?}"),
    }
}

#[test]
fn what_was_written_is_read_back() {
    let store = make_test_store();
    let text = r#"{"title": "héllo \"w\"", "n": -7, "more": [1, {"z": null, "a": true}]}"#;
    let write = store
        .insert_row("id-1".to_string(), 1000, value(text))
        .expect("insert");
    let found = StoredRow {
        id: "id-1".to_string(),
        data: write.data_text.clone(),
        created_at: 1000,
        updated_at: 1000,
    };
    let got = store.get("id-1", Some(found)).expect("get");
    assert_eq!(got, write.record);
    assert_eq!(got.data, value(text));
}

#[test]
fn missing_rows_are_not_found() {
    let store = make_test_store();
    let id = "does-not-exist";
    assert_eq!(
        store.get(id, None),
        Err(MiniAppError::NotFound { id: id.to_string() })
    );
    assert_eq!(
        store.update(id, None, value(r#"{"title": "x"}"#), UpdateMode::Merge, 5),
        Err(MiniAppError::NotFound { id: id.to_string() })
    );
    assert_eq!(
        store.delete(id, 0),
        Err(MiniAppError::NotFound { id: id.to_string() })
    );
    assert_eq!(store.delete(id, 1), Ok(()));
}

#[test]
fn update_keeps_id_and_creation() {
    let store = make_test_store();
    let found = || Some((r#"{"title":"x","state":"open"}"#.to_string(), 7));
    let merged = store
        .update(
            "r",
            found(),
            value(r#"{"state": "done"}"#),
            UpdateMode::Merge,
            99,
        )
        .expect("merge");
    assert_eq!(merged.record.id, "r");
    assert_eq!(merged.record.created_at, 7);
    assert_eq!(merged.record.updated_at, 99);
    assert_eq!(merged.data_text, r#"{"state":"done","title":"x"}"#);
    let replaced = store
        .update("r", found(), value(r#"{"title": "y"}"#), UpdateMode::Replace, 99)
        .expect("replace");
    assert_eq!(replaced.data_text, r#"{"title":"y"}"#);
    assert!(matches!(
        store.update("r", found(), value(r#"{"state": 42}"#), UpdateMode::Merge, 99),
        Err(MiniAppError::Validation { .. })
    ));
    assert!(matches!(
        store.update("r", found(), value(r#"{"state": "s"}"#), UpdateMode::Replace, 99),
        Err(MiniAppError::Validation { .. })
    ));
    assert_eq!(UpdateMode::default(), UpdateMode::Merge);
}

#[test]
fn unreadable_data_is_a_schema_error() {
    let row = StoredRow {
        id: "i".to_string(),
        data: "{".to_string(),
        created_at: 0,
        updated_at: 0,
    };
    match read_row(row) {
        Err(MiniAppError::Schema(t)) => {
            assert!(t.starts_with("data column: "), "{t}");
            let e = serde_json::from_str::<serde_json::Value>("{").unwrap_err();
            assert_eq!(t, format!("data column: {e}"));
        }
        other => panic!("unexpected {other:?}"),
    }
}

#[test]
fn rows_are_read_up_to_the_first_failure() {
    let row = |id: &str| StoredRow {
        id: id.to_string(),
        data: "{}".to_string(),
        created_at: 1,
        updated_at: 2,
    };
    let rows = read_rows(vec![Ok(row("b")), Ok(row("a"))]).expect("rows");
    let ids: Vec<&str> = rows.iter().map(|r| r.id.as_str()).collect();
    assert_eq!(ids, vec!["b", "a"]);
    assert_eq!(
        read_rows(vec![Ok(row("b")), Err("locked".to_string()), Ok(row("a"))]),
        Err(MiniAppError::Storage("locked".to_string()))
    );
}

#[test]
fn list_queries() {
    let store = make_test_store();
    let q = store.list(None, None, None).expect("list");
    assert_eq!(
        q.sql,
        "SELECT id, data, created_at, updated_at FROM rows ORDER BY created_at DESC LIMIT ? OFFSET ?"
    );
    assert_eq!((q.limit, q.offset), (100, 0));
    assert!(q.params.is_empty());
    let q = store.list(Some(5000), Some(3), None).expect("list");
    assert_eq!((q.limit, q.offset), (1000, 3));
    let q = store
        .list(
            Some(1),
            None,
            Some(ListFilter::Eq {
                field: "state".to_string(),
                value: value("\"open\""),
            }),
        )
        .expect("list");
    assert_eq!(
        q.sql,
        "SELECT id, data, created_at, updated_at FROM rows WHERE json_extract(data, '$.state') = ? ORDER BY created_at DESC LIMIT ? OFFSET ?"
    );
    assert_eq!(q.params, vec![FilterParam::Text("open".to_string())]);
    assert_eq!(q.limit, 1);
    assert!(matches!(
        store.list(
            None,
            None,
            Some(ListFilter::Eq {
                field: "state".to_string(),
                value: JsonValue::Null,
            }),
        ),
        Err(MiniAppError::Validation { .. })
    ));
}

#[test]
fn counts_and_clocks_are_clamped() {
    let store = make_test_store();
    assert_eq!(store.row_count(12), 12);
    assert_eq!(store.row_count(-1), 0);
    assert_eq!(epoch_seconds(Some(77)), 77);
    assert_eq!(epoch_seconds(None), 0);
}
