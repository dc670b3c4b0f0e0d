use mini_app_mcp::json::{self, JsonNumber, JsonObject, JsonValue};
use mini_app_mcp::path::{FilePath, PathPart};
use mini_app_mcp::text::{comes_before, decimal_of, read_number};
use mini_app_mcp::textmap::TextMap;

#[test]
fn every_kind_of_value_reads_and_writes() {
    let text = r#"{"a":[null,true,false,"q\"\\\n",-3,18446744073709551615,2.5],"b":{"c":{}}}"#;
    let v = json::parse(text).expect("valid");
    assert_eq!(v.to_text(), text);
    let JsonValue::Object(o) = &v else { panic!("object") };
    assert_eq!(o.len(), 2);
    assert_eq!(o.key_at(0), "a");
    let Some(JsonValue::Array(items)) = o.get("a") else { panic!("array") };
    assert!(items[0].is_null());
    assert_eq!(items[1], JsonValue::Bool(true));
    assert_eq!(items[3], JsonValue::Text("q\"\\\n".to_string()));
    assert_eq!(items[4], JsonValue::Number(JsonNumber::Signed(-3)));
    assert_eq!(items[5], JsonValue::Number(JsonNumber::Unsigned(u64::MAX)));
    let float = serde_json::Number::from_f64(2.5).unwrap();
    assert_eq!(items[6], JsonValue::Number(JsonNumber::Float(float)));
    assert_eq!(v.duplicate(), v);
    assert_eq!(json::parse(&v.to_pretty_text()), Ok(v));
}

#[test]
fn numbers_are_told_apart() {
    assert_eq!(json::parse("7").unwrap(), JsonValue::Number(JsonNumber::Unsigned(7)));
    assert_eq!(json::parse("-7").unwrap(), JsonValue::Number(JsonNumber::Signed(-7)));
    assert!(matches!(
        json::parse("7.0").unwrap(),
        JsonValue::Number(JsonNumber::Float(_))
    ));
    assert_eq!(json::parse("7.0").unwrap().to_text(), "7.0");
}

#[test]
fn spread_over_lines() {
    let v = json::parse(r#"{"b":1,"a":[]}"#).unwrap();
    assert_eq!(v.to_pretty_text(), "{\n  \"a\": [],\n  \"b\": 1\n}");
}

#[test]
fn malformed_text_is_refused_with_the_reason() {
    for bad in ["", "{", "[1,]", "nul", "{\"a\" 1}"] {
        let e = serde_json::from_str::<serde_json::Value>(bad).unwrap_err();
        assert_eq!(json::parse(bad), Err(e.to_string()));
    }
}

#[test]
fn the_last_of_equal_keys_wins() {
    assert_eq!(json::parse(r#"{"a":1,"a":2}"#).unwrap().to_text(), r#"{"a":2}"#);
}

#[test]
fn objects_keep_their_keys_in_order() {
    let mut o = JsonObject::new();
    for k in ["m", "b", "z", "b"] {
        o.insert(k.to_string(), JsonValue::Text(k.to_string()));
    }
    assert_eq!(o.len(), 3);
    let keys: Vec<&str> = (0..o.len()).map(|i| o.key_at(i).as_str()).collect();
    assert_eq!(keys, vec!["b", "m", "z"]);
    assert_eq!(o.value_at(2), &JsonValue::Text("z".to_string()));
    o.remove("m");
    o.remove("absent");
    assert!(!o.contains_key("m"));
    assert_eq!(o.len(), 2);
    assert_eq!(o.duplicate(), o);
}

#[test]
fn maps_by_text() {
    let mut m: TextMap<u8> = TextMap::new();
    m.insert("b".to_string(), 1);
    m.insert("a".to_string(), 2);
    m.insert("b".to_string(), 3);
    assert_eq!(m.len(), 2);
    assert_eq!(m.get("b"), Some(&3));
    assert_eq!(m.get("c"), None);
    assert!(m.contains_key("a"));
    assert_eq!(m.keys(), vec!["a", "b"]);
    assert_eq!((m.key_at(0).as_str(), *m.value_at(0)), ("a", 2));
}

#[test]
fn texts_are_ordered_as_in_std() {
    let texts = ["", "a", "aa", "ab", "b", "é", "Z", "日本", "🦀", "~"];
    for a in texts {
        for b in texts {
            assert_eq!(comes_before(a, b), a < b, "{a:?} {b:?}");
        }
    }
}

#[test]
fn decimal_numbers() {
    for n in [0, 7, 10, 99, 100, 1_700_000_000, u64::MAX] {
        assert_eq!(decimal_of(n), n.to_string());
    }
    for t in [
        "", "0", "7", "007", "+7", "+", "-7", "1a", "18446744073709551615", "18446744073709551616",
        " 1", "１",
    ] {
        assert_eq!(read_number(t), t.parse::<u64>().ok(), "{t:?}");
    }
}

fn rooted(names: &[&str]) -> FilePath {
    let mut parts = vec![PathPart::Root("/".to_string())];
    parts.extend(names.iter().map(|n| PathPart::Name(n.to_string())));
    FilePath::new(parts)
}

#[test]
fn paths() {
    let p = rooted(&["a", "b"]);
    assert_eq!(p.display(), "/a/b");
    assert_eq!(p.join("c").display(), "/a/b/c");
    assert_eq!(p.join("c").parent(), Some(p.duplicate()));
    assert_eq!(rooted(&[]).parent(), None);
    assert_eq!(rooted(&[]).display(), "/");
    assert!(p.starts_with(&rooted(&["a"])));
    assert!(p.starts_with(&p));
    assert!(!p.starts_with(&rooted(&["a", "b", "c"])));
    assert!(!rooted(&["ab"]).starts_with(&rooted(&["a"])));
    let relative = FilePath::new(vec![PathPart::Name("a".to_string())]);
    assert_eq!(relative.parent(), Some(FilePath::new(vec![])));
    assert_eq!(FilePath::new(vec![]).parent(), None);
    assert_eq!(relative.join("b").display(), "a/b");
    assert!(!p.starts_with(&relative));
}
