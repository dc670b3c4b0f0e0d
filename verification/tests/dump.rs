use mini_app_mcp::dump::{on_change, DumpConfig, DumpDir, SyncMode};
use mini_app_mcp::json;
use mini_app_mcp::schema::SchemaConfig;
use mini_app_mcp::store::{RowRecord, Store};

fn schema(dump: Option<DumpConfig>) -> SchemaConfig {
    SchemaConfig {
        table: "test".into(),
        title: None,
        description: None,
        fields: vec![],
        dump,
    }
}

fn config(sync: Option<SyncMode>) -> DumpConfig {
    DumpConfig {
        dir: Some("/tmp/out".into()),
        title_field: None,
        body_field: None,
        sync,
    }
}

fn row(data: &str) -> RowRecord {
    RowRecord {
        id: "abc".into(),
        data: json::parse(data).unwrap(),
        created_at: 1,
        updated_at: 1,
    }
}

#[test]
fn rows_are_written_as_heading_and_body() {
    let s = schema(Some(config(Some(SyncMode::WriteOnly))));
    let f = on_change(&s, &row(r#"{"title": "My Issue", "body": "Details"}"#)).expect("a file");
    assert_eq!(f.dir, DumpDir::Given("/tmp/out".into()));
    assert_eq!(f.name, "abc.md");
    assert_eq!(f.text, "# My Issue\n\nDetails\n");
    let f = on_change(&s, &row(r#"{"title": 7, "body": null}"#)).expect("a file");
    assert_eq!(f.text, "# 7\n\n\n");
}

#[test]
fn fields_and_directory_can_be_chosen() {
    let s = schema(Some(DumpConfig {
        dir: None,
        title_field: Some("name".into()),
        body_field: Some("notes".into()),
        sync: None,
    }));
    let f = on_change(&s, &row(r#"{"name": "N", "notes": [1], "title": "T"}"#)).expect("a file");
    assert_eq!(f.dir, DumpDir::OfTable("test".into()));
    assert_eq!(f.text, "# N\n\n[1]\n");
}

#[test]
fn nothing_is_written_unless_configured() {
    assert_eq!(on_change(&schema(None), &row("{}")), None);
}

#[test]
fn bidirectional_sync_is_not_honoured() {
    assert!(Store::open(schema(Some(config(Some(SyncMode::Bidirectional))))).ignores_sync());
    assert!(!Store::open(schema(Some(config(Some(SyncMode::WriteOnly))))).ignores_sync());
    assert!(!Store::open(schema(Some(config(None)))).ignores_sync());
    assert!(!Store::open(schema(None)).ignores_sync());
}
