use vaultmesh::json::{
    canonical_string, decimal_string, hash_canonical, remove_key, sort_json, to_text, Value,
};

fn text(s: &str) -> Value {
    Value::Text(s.to_string())
}

fn number(s: &str) -> Value {
    Value::Number(s.to_string())
}

fn object(members: Vec<(&str, Value)>) -> Value {
    Value::Object(members.into_iter().map(|(k, v)| (k.to_string(), v)).collect())
}

#[test]
fn scalars_are_written_as_they_are() {
    assert_eq!(to_text(&Value::Null), "null");
    assert_eq!(to_text(&Value::Bool(true)), "true");
    assert_eq!(to_text(&Value::Bool(false)), "false");
    assert_eq!(to_text(&number("-1.5e3")), "-1.5e3");
    assert_eq!(to_text(&text("a")), "\"a\"");
}

#[test]
fn strings_are_escaped() {
    assert_eq!(to_text(&text("a\"b\\c")), r#""a\"b\\c""#);
    assert_eq!(to_text(&text("\n\t\r\u{8}\u{c}")), r#""\n\t\r\b\f""#);
    assert_eq!(to_text(&text("\u{1}\u{1f}\u{7f}é")), "\"\\u0001\\u001f\u{7f}é\"");
    assert_eq!(to_text(&text("")), "\"\"");
}

#[test]
fn text_agrees_with_serde_json() {
    let v = object(vec![
        ("b", Value::Array(vec![number("1"), Value::Bool(true), Value::Null])),
        ("a\n", text("x\"y")),
        ("c", object(vec![])),
        ("d", Value::Array(vec![])),
    ]);
    let ours = canonical_string(&v);
    assert_eq!(ours, r#"{"a\n":"x\"y","b":[1,true,null],"c":{},"d":[]}"#);
    let parsed: serde_json::Value = serde_json::from_str(&ours).unwrap();
    assert_eq!(serde_json::to_string(&parsed).unwrap(), ours);
}

#[test]
fn text_keeps_the_order_of_members() {
    let v = object(vec![("b", number("1")), ("a", number("2"))]);
    assert_eq!(to_text(&v), r#"{"b":1,"a":2}"#);
    assert_eq!(canonical_string(&v), r#"{"a":2,"b":1}"#);
}

#[test]
fn canonical_form_sorts_at_every_depth_and_keeps_arrays() {
    let v = object(vec![
        (
            "z",
            Value::Array(vec![
                object(vec![("y", number("1")), ("x", number("2"))]),
                text("b"),
                text("a"),
            ]),
        ),
        ("a", object(vec![("k2", Value::Null), ("k1", Value::Null), ("K", Value::Null)])),
    ]);
    assert_eq!(
        canonical_string(&v),
        r#"{"a":{"K":null,"k1":null,"k2":null},"z":[{"x":2,"y":1},"b","a"]}"#
    );
    assert_eq!(to_text(&sort_json(&v)), canonical_string(&v));
}

#[test]
fn canonical_form_orders_keys_by_code_point() {
    let v = object(vec![
        ("é", number("1")),
        ("z", number("2")),
        ("", number("3")),
        ("Z", number("4")),
        ("zz", number("5")),
    ]);
    assert_eq!(canonical_string(&v), r#"{"":3,"Z":4,"z":2,"zz":5,"é":1}"#);
}

#[test]
fn canonical_form_ignores_the_order_of_members() {
    let a = object(vec![
        ("one", object(vec![("p", text("1")), ("q", text("2")), ("r", text("3"))])),
        ("two", Value::Array(vec![object(vec![("m", Value::Null), ("n", Value::Null)])])),
        ("three", number("3")),
    ]);
    let b = object(vec![
        ("three", number("3")),
        ("two", Value::Array(vec![object(vec![("n", Value::Null), ("m", Value::Null)])])),
        ("one", object(vec![("r", text("3")), ("p", text("1")), ("q", text("2"))])),
    ]);
    assert_eq!(canonical_string(&a), canonical_string(&b));
    assert_eq!(hash_canonical(&a), hash_canonical(&b));
    let c = object(vec![("three", number("4"))]);
    assert_ne!(hash_canonical(&a), hash_canonical(&c));
}

#[test]
fn members_with_the_same_key_keep_their_order() {
    let v = object(vec![("a", number("1")), ("b", number("2")), ("a", number("3"))]);
    assert_eq!(canonical_string(&v), r#"{"a":1,"a":3,"b":2}"#);
}

#[test]
fn digest_is_the_hash_of_the_canonical_text() {
    let v = object(vec![("b", number("1")), ("a", text("é"))]);
    let expected = hex::encode(blake3::hash(r#"{"a":"é","b":1}"#.as_bytes()).as_bytes());
    assert_eq!(hash_canonical(&v), expected);
}

#[test]
fn members_are_found_and_removed() {
    let v = object(vec![("a", number("1")), ("b", text("x")), ("a", number("3"))]);
    assert_eq!(v.get("a").map(to_text), Some("1".to_string()));
    assert_eq!(v.get("b").and_then(|b| b.as_text()).cloned(), Some("x".to_string()));
    assert!(v.get("c").is_none());
    assert!(text("a").get("a").is_none());
    assert_eq!(to_text(&remove_key(&v, "a")), r#"{"b":"x"}"#);
    assert_eq!(to_text(&remove_key(&v, "c")), to_text(&v));
    assert_eq!(to_text(&remove_key(&text("a"), "a")), "\"a\"");
    assert_eq!(v.get_text("b"), Some("x".to_string()));
    assert_eq!(v.get_text("a"), None);
}

#[test]
fn optional_members_may_be_missing_or_null() {
    let v = object(vec![("a", Value::Null), ("b", text("x")), ("c", number("1"))]);
    assert_eq!(v.get_optional_text("a"), Some(None));
    assert_eq!(v.get_optional_text("zz"), Some(None));
    assert_eq!(v.get_optional_text("b"), Some(Some("x".to_string())));
    assert_eq!(v.get_optional_text("c"), None);
    assert!(v.get_present("a").is_none());
    assert!(v.get_present("c").is_some());
    assert!(v.is_object());
    assert!(!Value::Null.is_object());
}

#[test]
fn a_copy_is_the_same_document() {
    let v = object(vec![("a", Value::Array(vec![number("1"), object(vec![("b", text("c"))])]))]);
    assert_eq!(to_text(&v.clone()), to_text(&v));
}

#[test]
fn decimal_text_has_no_leading_zeros() {
    assert_eq!(decimal_string(0), "0");
    assert_eq!(decimal_string(7), "7");
    assert_eq!(decimal_string(10), "10");
    assert_eq!(decimal_string(1234567890), "1234567890");
}
