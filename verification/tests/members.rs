use mini_app_mcp::members::{write_array, write_array_lines, write_object, write_object_lines};
use serde_json::Value;

fn member(key: &str, value: &str) -> (String, String) {
    (key.to_string(), value.to_string())
}

fn read(text: &str) -> Value {
    serde_json::from_str(text).expect("JSON text")
}

#[test]
fn members_keep_their_order() {
    let members = vec![member("z", "1"), member("a", "[2]"), member("q\"", "null")];
    assert_eq!(write_object(&members), r#"{"z":1,"a":[2],"q\"":null}"#);
    assert_eq!(
        write_object_lines(&members, ""),
        "{\n  \"z\": 1,\n  \"a\": [2],\n  \"q\\\"\": null\n}"
    );
}

#[test]
fn one_line_is_written_as_serde_json_writes_it() {
    let members = vec![member("a", "1"), member("b\n", "\"x\""), member("c", "{}")];
    let object = write_object(&members);
    assert_eq!(object, serde_json::to_string(&read(&object)).unwrap());
    assert_eq!(write_object(&vec![]), "{}");
    let array = write_array(&vec![object, "null".to_string()]);
    assert_eq!(array, serde_json::to_string(&read(&array)).unwrap());
    assert_eq!(write_array(&vec![]), "[]");
}

#[test]
fn lines_are_written_as_serde_json_writes_them() {
    let inner = write_object_lines(&vec![member("k", "true"), member("l", "\"x\"")], "    ");
    let empty = write_object_lines(&vec![], "    ");
    let list = write_array_lines(&vec![inner, empty, "3".to_string()], "  ");
    let object = write_object_lines(
        &vec![
            member("a", "1"),
            member("b", &list),
            member("c", &write_array_lines(&vec![], "  ")),
        ],
        "",
    );
    assert_eq!(object, serde_json::to_string_pretty(&read(&object)).unwrap());
}
