use mini_app_mcp::error::MiniAppError;
use mini_app_mcp::json;
use mini_app_mcp::mcp::server::{
    deleted_value, is_id_prefix, resolve_id_prefix, row_text, rows_text, FieldSelector,
};
use mini_app_mcp::schema::{FieldDef, FieldType, SchemaConfig};
use mini_app_mcp::store::RowRecord;

fn row(id: &str) -> RowRecord {
    RowRecord {
        id: id.to_string(),
        data: json::parse(r#"{"title":"x"}"#).unwrap(),
        created_at: -1,
        updated_at: 2,
    }
}

fn schema() -> SchemaConfig {
    SchemaConfig {
        table: "t".to_string(),
        title: None,
        description: None,
        fields: ["a", "b"]
            .iter()
            .map(|n| FieldDef {
                name: n.to_string(),
                ty: FieldType::Number,
                required: false,
                description: None,
            })
            .collect(),
        dump: None,
    }
}

#[test]
fn rows_as_json() {
    assert_eq!(
        row_text(&row("r")),
        r#"{"id":"r","data":{"title":"x"},"created_at":-1,"updated_at":2}"#
    );
    assert_eq!(rows_text(&vec![]), "[]");
    let two = rows_text(&vec![row("1"), row("2")]);
    assert_eq!(two, format!("[{},{}]", row_text(&row("1")), row_text(&row("2"))));
    let v: serde_json::Value = serde_json::from_str(&two).unwrap();
    assert_eq!(v[0]["id"], "1");
    assert_eq!(v[1]["id"], "2");
    assert_eq!(deleted_value("r").to_text(), r#"{"deleted":"r"}"#);
}

#[test]
fn ids_may_be_shortened() {
    let full = "123e4567-e89b-42d3-a456-426614174000";
    assert!(!is_id_prefix(full));
    assert!(is_id_prefix(&full[..35]));
    assert!(is_id_prefix(""));
    assert_eq!(
        resolve_id_prefix("123", vec![full.to_string()]),
        Ok(full.to_string())
    );
    assert_eq!(
        resolve_id_prefix("123", vec![]),
        Err(MiniAppError::NotFound { id: "123".to_string() })
    );
    assert_eq!(
        resolve_id_prefix("12", vec!["12a".to_string(), "12b".to_string()]),
        Err(MiniAppError::AmbiguousId {
            id_prefix: "12".to_string(),
            candidates: vec!["12a".to_string(), "12b".to_string()],
        })
    );
}

#[test]
fn fields_can_be_selected() {
    let data = json::parse(r#"{"a":1,"b":2,"extra":3}"#).unwrap();
    assert_eq!(FieldSelector::All.project(&data), data);
    let some = FieldSelector::List(vec!["b".to_string()]);
    assert_eq!(some.project(&data).to_text(), r#"{"b":2}"#);
    assert_eq!(some.project(&json::parse(r#"{"a":1}"#).unwrap()).to_text(), "{}");
    assert_eq!(some.validate(&schema()), Ok(()));
    assert_eq!(FieldSelector::All.validate(&schema()), Ok(()));
    let bad = FieldSelector::List(vec!["a".to_string(), "extra".to_string()]);
    match bad.validate(&schema()) {
        Err(MiniAppError::Validation { field, .. }) => assert_eq!(field, "extra"),
        other => panic!("unexpected {other:?}"),
    }
}
