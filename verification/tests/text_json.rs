use worker_core::json::JsonValue;
use worker_core::json::to_json_string;
use worker_core::text::contains_char;
use worker_core::text::has_prefix;
use worker_core::text::i64_to_string;
use worker_core::text::join_strings;
use worker_core::text::replace_all;
use worker_core::text::split_lines;
use worker_core::text::u64_to_string;

#[test]
fn decimal_rendering() {
    assert_eq!(u64_to_string(0), "0");
    assert_eq!(u64_to_string(42), "42");
    assert_eq!(u64_to_string(18446744073709551615), "18446744073709551615");
    assert_eq!(i64_to_string(0), "0");
    assert_eq!(i64_to_string(-7), "-7");
    assert_eq!(i64_to_string(i64::MIN), "-9223372036854775808");
    assert_eq!(i64_to_string(i64::MAX), "9223372036854775807");
}

#[test]
fn prefix_and_contains() {
    assert!(has_prefix("$var:u/x", "$var:"));
    assert!(!has_prefix("$var", "$var:"));
    assert!(!has_prefix("x$var:u", "$var:"));
    assert!(has_prefix("anything", ""));
    assert!(contains_char("a/b", '/'));
    assert!(!contains_char("ab", '/'));
    assert!(!contains_char("", '/'));
}

#[test]
fn line_splitting() {
    let v = split_lines("a\nb\nc");
    assert_eq!(v, vec!["a", "b", "c"]);
    let v = split_lines("a\nb\n");
    assert_eq!(v, vec!["a", "b"]);
    let v = split_lines("");
    assert!(v.is_empty());
    let v = split_lines("\n");
    assert_eq!(v, vec![""]);
    let v = split_lines("a\r\nb\rc");
    assert_eq!(v, vec!["a", "b\rc"]);
}

#[test]
fn joining() {
    let v: Vec<String> = vec!["a".to_string(), "b".to_string(), "c".to_string()];
    assert_eq!(join_strings(&v, "\n"), "a\nb\nc");
    let v: Vec<String> = vec!["only".to_string()];
    assert_eq!(join_strings(&v, ","), "only");
    let v: Vec<String> = Vec::new();
    assert_eq!(join_strings(&v, ","), "");
}

#[test]
fn replacement() {
    assert_eq!(replace_all("{A}/x/{A}", "{A}", "v"), "v/x/v");
    assert_eq!(replace_all("aaa", "aa", "b"), "ba");
    assert_eq!(replace_all("abc", "", "x"), "abc");
    assert_eq!(replace_all("abc", "z", "x"), "abc");
    // a replacement is not rescanned
    assert_eq!(replace_all("ab", "ab", "abab"), "abab");
}

#[test]
fn json_scalars() {
    assert_eq!(to_json_string(&JsonValue::Null), "null");
    assert_eq!(to_json_string(&JsonValue::Bool(true)), "true");
    assert_eq!(to_json_string(&JsonValue::Bool(false)), "false");
    assert_eq!(to_json_string(&JsonValue::Int(42)), "42");
    assert_eq!(to_json_string(&JsonValue::Int(-3)), "-3");
    assert_eq!(to_json_string(&JsonValue::Str("hi".to_string())), "\"hi\"");
}

#[test]
fn json_number_tokens() {
    // a fractional or out-of-range number keeps its exact token
    assert_eq!(to_json_string(&JsonValue::Num("1.5".to_string())), "1.5");
    assert_eq!(
        to_json_string(&JsonValue::Num("18446744073709551615".to_string())),
        "18446744073709551615"
    );
    assert_eq!(to_json_string(&JsonValue::Num("-2.75e10".to_string())), "-2.75e10");
    let v = JsonValue::Obj(vec![("pi".to_string(), JsonValue::Num("3.14".to_string()))]);
    let text = to_json_string(&v);
    assert_eq!(text, "{\"pi\":3.14}");
    // what the serializer writes, the JSON parser reads back as the number
    let parsed: serde_json::Value = serde_json::from_str(&text).expect("valid json");
    assert_eq!(parsed["pi"], serde_json::Value::from(3.14f64));
}

#[test]
fn json_escaping() {
    let s = JsonValue::Str("a\"b\\c\nd\te\u{8}f\u{c}g\rh\u{1}i".to_string());
    assert_eq!(
        to_json_string(&s),
        "\"a\\\"b\\\\c\\nd\\te\\bf\\fg\\rh\\u0001i\""
    );
}

#[test]
fn json_nested() {
    let v = JsonValue::Obj(vec![
        ("k".to_string(), JsonValue::Str("v".to_string())),
        (
            "arr".to_string(),
            JsonValue::Arr(vec![JsonValue::Int(1), JsonValue::Null, JsonValue::Bool(false)]),
        ),
    ]);
    assert_eq!(to_json_string(&v), "{\"k\":\"v\",\"arr\":[1,null,false]}");
}

#[test]
fn json_agrees_with_parser() {
    // what the serializer writes, the JSON parser reads back the same
    let v = JsonValue::Obj(vec![
        ("s".to_string(), JsonValue::Str("line1\nline2 \"quoted\"".to_string())),
        ("n".to_string(), JsonValue::Int(-12345)),
        ("a".to_string(), JsonValue::Arr(vec![JsonValue::Str("x".to_string())])),
    ]);
    let text = to_json_string(&v);
    let parsed: serde_json::Value = serde_json::from_str(&text).expect("valid json");
    assert_eq!(parsed["s"], serde_json::Value::String("line1\nline2 \"quoted\"".to_string()));
    assert_eq!(parsed["n"], serde_json::Value::from(-12345i64));
    assert_eq!(parsed["a"][0], serde_json::Value::String("x".to_string()));
}

#[test]
fn json_clone_is_structural() {
    let v = JsonValue::Obj(vec![(
        "a".to_string(),
        JsonValue::Arr(vec![JsonValue::Str("s".to_string()), JsonValue::Int(1)]),
    )]);
    let c = v.clone_value();
    assert_eq!(to_json_string(&c), to_json_string(&v));
}
