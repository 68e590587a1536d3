use client_backend::json::{merge_json_objects, JsonValue};

fn s(x: &str) -> JsonValue {
    JsonValue::Str(x.to_string())
}

fn obj(fields: Vec<(&str, JsonValue)>) -> JsonValue {
    JsonValue::Object(fields.into_iter().map(|(k, v)| (k.to_string(), v)).collect())
}

fn field<'a>(v: &'a JsonValue, key: &str) -> Option<&'a JsonValue> {
    match v {
        JsonValue::Object(fs) => fs.iter().find(|(k, _)| k == key).map(|(_, v)| v),
        _ => None,
    }
}

#[test]
fn merge_sets_removes_and_keeps() {
    let mut a = obj(vec![
        ("keep", s("kept")),
        ("replace", s("old")),
        ("drop", s("gone")),
        ("nested", obj(vec![("x", s("1")), ("y", s("2"))])),
    ]);
    let b = obj(vec![
        ("replace", s("new")),
        ("drop", JsonValue::Null),
        ("added", JsonValue::Bool(true)),
        ("nested", obj(vec![("y", s("3"))])),
    ]);
    merge_json_objects(&mut a, b);
    assert!(matches!(field(&a, "keep"), Some(JsonValue::Str(v)) if v == "kept"));
    assert!(matches!(field(&a, "replace"), Some(JsonValue::Str(v)) if v == "new"));
    assert!(field(&a, "drop").is_none());
    assert!(matches!(field(&a, "added"), Some(JsonValue::Bool(true))));
    let nested = field(&a, "nested").expect("nested kept");
    assert!(matches!(field(nested, "x"), Some(JsonValue::Str(v)) if v == "1"));
    assert!(matches!(field(nested, "y"), Some(JsonValue::Str(v)) if v == "3"));
}

#[test]
fn merge_of_non_objects_does_nothing() {
    let mut a = s("text");
    merge_json_objects(&mut a, obj(vec![("k", s("v"))]));
    assert!(matches!(a, JsonValue::Str(ref v) if v == "text"));
    let mut a = obj(vec![("k", s("v"))]);
    merge_json_objects(&mut a, JsonValue::Array(vec![]));
    assert!(matches!(field(&a, "k"), Some(JsonValue::Str(v)) if v == "v"));
}

#[test]
fn merge_empty_object_is_identity() {
    let mut a = obj(vec![("k", s("v")), ("n", JsonValue::Number("5".to_string()))]);
    merge_json_objects(&mut a, obj(vec![]));
    match &a {
        JsonValue::Object(fs) => assert_eq!(fs.len(), 2),
        _ => panic!("object"),
    }
}

#[test]
fn deep_copy_is_equal() {
    let v = obj(vec![("a", JsonValue::Array(vec![s("x"), JsonValue::Null])), ("b", JsonValue::Bool(false))]);
    let c = v.deep_copy();
    assert_eq!(format!("{v:?}"), format!("{c:?}"));
    assert!(JsonValue::Null.is_null());
    assert!(!c.is_null());
}

fn b_for_twice() -> JsonValue {
    obj(vec![
        ("replace", s("new")),
        ("drop", JsonValue::Null),
        ("nested", obj(vec![("y", s("3")), ("z", obj(vec![("deep", JsonValue::Bool(false))]))])),
    ])
}

fn canon(v: &JsonValue) -> String {
    match v {
        JsonValue::Object(fs) => {
            let mut parts: Vec<String> = fs.iter().map(|(k, x)| format!("{k}:{}", canon(x))).collect();
            parts.sort();
            format!("{{{}}}", parts.join(","))
        }
        JsonValue::Array(xs) => format!("[{}]", xs.iter().map(canon).collect::<Vec<_>>().join(",")),
        other => format!("{other:?}"),
    }
}

#[test]
fn merging_the_same_object_twice_changes_nothing() {
    let mut a = obj(vec![
        ("keep", s("kept")),
        ("replace", s("old")),
        ("drop", s("gone")),
        ("nested", s("not an object")),
    ]);
    merge_json_objects(&mut a, b_for_twice());
    let once = canon(&a);
    merge_json_objects(&mut a, b_for_twice());
    assert_eq!(canon(&a), once);
    assert!(field(&a, "drop").is_none());
    let nested = field(&a, "nested").expect("nested set");
    assert!(matches!(field(nested, "y"), Some(JsonValue::Str(v)) if v == "3"));
}
