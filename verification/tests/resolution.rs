use worker_core::args::ResolutionStore;
use worker_core::args::transform_json_value;
use worker_core::json::JsonValue;
use worker_core::json::to_json_string;
use worker_core::runner::serialize_resolved_args;

fn store_with(
    vars: Vec<(&str, &str)>,
    resources: Vec<(&str, JsonValue)>,
) -> ResolutionStore {
    ResolutionStore {
        vars: vars
            .into_iter()
            .map(|(k, v)| (k.to_string(), v.to_string()))
            .collect(),
        resources: resources
            .into_iter()
            .map(|(k, v)| (k.to_string(), v))
            .collect(),
    }
}

fn empty_store() -> ResolutionStore {
    ResolutionStore { vars: Vec::new(), resources: Vec::new() }
}

#[test]
fn identity_on_plain_values() {
    let store = empty_store();
    for v in [
        JsonValue::Null,
        JsonValue::Bool(true),
        JsonValue::Int(7),
        JsonValue::Num("2.5".to_string()),
        JsonValue::Str("plain".to_string()),
        JsonValue::Str("var: not a marker".to_string()),
    ] {
        let r = transform_json_value(&v, &store, 16);
        assert_eq!(to_json_string(&r), to_json_string(&v));
    }
}

#[test]
fn arrays_are_not_walked() {
    let store = store_with(vec![("u/x", "seen")], vec![]);
    let v = JsonValue::Arr(vec![JsonValue::Str("$var:u/x".to_string())]);
    let r = transform_json_value(&v, &store, 16);
    assert_eq!(to_json_string(&r), "[\"$var:u/x\"]");
}

#[test]
fn variable_substitution() {
    let store = store_with(vec![("u/x", "secret-value")], vec![]);
    let v = JsonValue::Str("$var:u/x".to_string());
    let r = transform_json_value(&v, &store, 16);
    assert_eq!(to_json_string(&r), "\"secret-value\"");
}

#[test]
fn variable_fetch_error() {
    let store = empty_store();
    let v = JsonValue::Str("$var:u/missing".to_string());
    let r = transform_json_value(&v, &store, 16);
    assert_eq!(to_json_string(&r), "\"error fetching variable u/missing\"");
}

#[test]
fn resource_expansion() {
    // a resource at foo/bar = {"k":"v"} expands inside the arguments
    let store = store_with(
        vec![],
        vec![(
            "foo/bar",
            JsonValue::Obj(vec![("k".to_string(), JsonValue::Str("v".to_string()))]),
        )],
    );
    let v = JsonValue::Obj(vec![("conf".to_string(), JsonValue::Str("$res:foo/bar".to_string()))]);
    let r = transform_json_value(&v, &store, 16);
    assert_eq!(to_json_string(&r), "{\"conf\":{\"k\":\"v\"}}");
}

#[test]
fn malformed_resource_path() {
    let store = empty_store();
    let v = JsonValue::Obj(vec![("x".to_string(), JsonValue::Str("$res:oneseg".to_string()))]);
    let r = transform_json_value(&v, &store, 16);
    assert_eq!(
        to_json_string(&r),
        "{\"x\":\"resource path: oneseg is ill-defined\"}"
    );
}

#[test]
fn resource_fetch_error() {
    let store = empty_store();
    let v = JsonValue::Str("$res:a/b".to_string());
    let r = transform_json_value(&v, &store, 16);
    assert_eq!(to_json_string(&r), "\"error fetching resource a/b\"");
}

#[test]
fn resource_chain_resolves() {
    // a resource may itself hold a reference; it is resolved again
    let store = store_with(
        vec![("u/inner", "deep")],
        vec![
            ("a/b", JsonValue::Str("$res:c/d".to_string())),
            ("c/d", JsonValue::Obj(vec![
                ("leaf".to_string(), JsonValue::Str("$var:u/inner".to_string())),
            ])),
        ],
    );
    let v = JsonValue::Str("$res:a/b".to_string());
    let r = transform_json_value(&v, &store, 16);
    assert_eq!(to_json_string(&r), "{\"leaf\":\"deep\"}");
}

#[test]
fn resource_resolution_idempotent() {
    // resolving a placeholder-free resource returns it unchanged, and
    // resolving the result again changes nothing
    let resource = JsonValue::Obj(vec![
        ("k".to_string(), JsonValue::Str("v".to_string())),
        ("n".to_string(), JsonValue::Int(3)),
    ]);
    let store = store_with(vec![], vec![("foo/bar", resource)]);
    let v = JsonValue::Str("$res:foo/bar".to_string());
    let once = transform_json_value(&v, &store, 16);
    let twice = transform_json_value(&once, &store, 16);
    assert_eq!(to_json_string(&once), "{\"k\":\"v\",\"n\":3}");
    assert_eq!(to_json_string(&twice), to_json_string(&once));
}

#[test]
fn first_entry_answers() {
    let store = store_with(vec![("u/x", "first"), ("u/x", "second")], vec![]);
    let v = JsonValue::Str("$var:u/x".to_string());
    let r = transform_json_value(&v, &store, 16);
    assert_eq!(to_json_string(&r), "\"first\"");
}

#[test]
fn args_file_rendering() {
    let store = store_with(vec![("u/x", "v")], vec![]);
    let args = Some(JsonValue::Obj(vec![
        ("a".to_string(), JsonValue::Str("$var:u/x".to_string())),
        ("b".to_string(), JsonValue::Int(42)),
    ]));
    assert_eq!(serialize_resolved_args(&args, &store, 16), "{\"a\":\"v\",\"b\":42}");
    assert_eq!(serialize_resolved_args(&None, &store, 16), "null");
}
