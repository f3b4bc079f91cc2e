use lspresso_shot::compare::{compare_fields, paint, write_fields_comparison, PaintColor};
use lspresso_shot::json::{clone_json, json_eq, json_keys_sorted, key_before, render_json, JsonValue};

fn num(n: &str) -> JsonValue {
    JsonValue::Number(n.to_string())
}

fn obj(members: Vec<(&str, JsonValue)>) -> JsonValue {
    JsonValue::Object(members.into_iter().map(|(k, v)| (k.to_string(), v)).collect())
}

fn from_serde(v: &serde_json::Value) -> JsonValue {
    match v {
        serde_json::Value::Null => JsonValue::Null,
        serde_json::Value::Bool(b) => JsonValue::Bool(*b),
        serde_json::Value::Number(n) => JsonValue::Number(n.to_string()),
        serde_json::Value::String(s) => JsonValue::String(s.clone()),
        serde_json::Value::Array(a) => JsonValue::Array(a.iter().map(from_serde).collect()),
        serde_json::Value::Object(m) => {
            JsonValue::Object(m.iter().map(|(k, v)| (k.clone(), from_serde(v))).collect())
        }
    }
}

#[test]
fn paint_wraps_text_in_ansi_codes() {
    assert_eq!("\u{1b}[32mok\u{1b}[0m", paint(Some(PaintColor::Green), "ok"));
    assert_eq!("\u{1b}[31mbad\u{1b}[0m", paint(Some(PaintColor::Red), "bad"));
    assert_eq!("plain", paint(None, "plain"));
}

#[test]
fn render_matches_serde_json_display() {
    let texts = [
        r#"{"a":[1,2.5,"x\"y"],"b":null,"c":{"d":true,"e":"\u00e9\n"}}"#,
        r#"[]"#,
        r#"{}"#,
        r#""tab\there""#,
        r#"-12"#,
    ];
    for t in texts {
        let v: serde_json::Value = serde_json::from_str(t).unwrap();
        assert_eq!(v.to_string(), render_json(&from_serde(&v)));
    }
}

#[test]
fn json_equality_and_copies() {
    let a = obj(vec![("k", JsonValue::Array(vec![num("1"), JsonValue::Null]))]);
    let b = clone_json(&a);
    assert!(json_eq(&a, &b));
    let c = obj(vec![("k", JsonValue::Array(vec![num("1")]))]);
    assert!(!json_eq(&a, &c));
    assert!(!json_eq(&num("1"), &JsonValue::String("1".to_string())));
}

#[test]
fn equal_fields_are_green() {
    assert_eq!(
        "\u{1b}[32m    label: \"x\"\u{1b}[0m\n",
        compare_fields(2, "label", &JsonValue::String("x".to_string()), &JsonValue::String("x".to_string()))
    );
}

#[test]
fn differing_fields_are_red_with_both_values() {
    assert_eq!(
        "\u{1b}[31m  a: \n    Expected: 1\n    Actual: 2\u{1b}[0m\n",
        compare_fields(1, "a", &num("1"), &num("2"))
    );
    assert_eq!(
        "\u{1b}[31ms: \n  Expected:\n    \"x\"\n  Actual:\n    \"y\"\u{1b}[0m\n",
        compare_fields(0, "s", &JsonValue::String("x".to_string()), &JsonValue::String("y".to_string()))
    );
}

#[test]
fn objects_compare_member_by_member() {
    let e = obj(vec![("a", num("1")), ("b", num("2"))]);
    let a = obj(vec![("a", num("1")), ("b", num("3")), ("c", num("4"))]);
    let out = write_fields_comparison("Thing", &e, &a, 0);
    assert_eq!(
        "{\n\u{1b}[32m  a: 1\u{1b}[0m\n\u{1b}[31m  b: \n    Expected: 2\n    Actual: 3\u{1b}[0m\n\u{1b}[31m  c: \n    Expected: null\n    Actual: 4\u{1b}[0m\n},\n",
        out
    );
}

#[test]
fn arrays_compare_element_by_element() {
    let e = JsonValue::Array(vec![num("1")]);
    let a = JsonValue::Array(vec![num("1"), num("2")]);
    let out = write_fields_comparison("Items", &e, &a, 0);
    assert_eq!(
        "[\n\u{1b}[32m    Items: 1\u{1b}[0m\n\u{1b}[31m    Items: \n      Expected: null\n      Actual: 2\u{1b}[0m\n],\n",
        out
    );
}

#[test]
fn nested_containers_are_labelled_by_key() {
    let e = obj(vec![("inner", obj(vec![("x", JsonValue::Bool(true))]))]);
    let a = obj(vec![("inner", obj(vec![("x", JsonValue::Bool(true))]))]);
    assert_eq!(
        "{\n  inner: {\n\u{1b}[32m    x: true\u{1b}[0m\n  },\n},\n",
        write_fields_comparison("Root", &e, &a, 0)
    );
}

#[test]
fn scalars_are_compared_one_level_in() {
    assert_eq!(
        "\u{1b}[32m  Value: 5\u{1b}[0m\n",
        write_fields_comparison("Value", &num("5"), &num("5"), 0)
    );
}

#[test]
fn a_value_compared_with_itself_paints_nothing_red() {
    let v = obj(vec![
        ("flag", JsonValue::Bool(false)),
        ("list", JsonValue::Array(vec![num("1"), obj(vec![("deep", JsonValue::Null)])])),
        ("name", JsonValue::String("x".to_string())),
    ]);
    let out = write_fields_comparison("Root", &v, &clone_json(&v), 0);
    assert!(!out.contains("\u{1b}[31m"));
    assert!(out.contains("\u{1b}[32m  name: \"x\"\u{1b}[0m\n"));
    assert!(out.contains("deep: null\u{1b}[0m\n"));
    assert!(out.contains("\u{1b}[32m  flag: false\u{1b}[0m\n"));
}

#[test]
fn numbers_compare_by_value_as_serde_json_does() {
    assert!(json_eq(&num("0.0"), &num("-0.0")));
    assert!(!json_eq(&num("1"), &num("1.0")));
    assert!(!json_eq(&num("0"), &num("0.0")));
    let z: serde_json::Value = serde_json::from_str("0.0").unwrap();
    let nz: serde_json::Value = serde_json::from_str("-0.0").unwrap();
    assert_eq!(z == nz, json_eq(&from_serde(&z), &from_serde(&nz)));
    assert_eq!("-0.0", render_json(&from_serde(&nz)));
    assert_eq!(
        "\u{1b}[32m  x: 0.0\u{1b}[0m\n",
        compare_fields(1, "x", &num("0.0"), &num("-0.0"))
    );
}

#[test]
fn keys_are_ordered_as_rust_orders_strings() {
    assert!(key_before("a", "b"));
    assert!(key_before("ab", "abc"));
    assert!(!key_before("abc", "ab"));
    assert!(!key_before("a", "a"));
    assert!(key_before("Z", "a"));
    assert!(key_before("isIncomplete", "items"));
    let v: serde_json::Value = serde_json::from_str(r#"{"z":1,"b":{"y":2,"x":[{"q":1,"p":0}]},"a":null}"#).unwrap();
    assert!(json_keys_sorted(&from_serde(&v)));
    assert!(!json_keys_sorted(&obj(vec![("b", num("1")), ("a", num("2"))])));
    assert!(!json_keys_sorted(&obj(vec![("a", num("1")), ("a", num("2"))])));
    assert!(!json_keys_sorted(&JsonValue::Array(vec![obj(vec![("b", JsonValue::Null), ("a", JsonValue::Null)])])));
}

#[test]
fn strings_are_escaped_as_serde_json_does() {
    let text = "a\"b\\c\u{8}\t\n\u{c}\r\u{1}\u{1f}\u{7f}é/";
    assert_eq!(serde_json::to_string(text).unwrap(), render_json(&JsonValue::String(text.to_string())));
    assert_eq!("\"\\u0001\\u001f\"", render_json(&JsonValue::String("\u{1}\u{1f}".to_string())));
}
