use vaultmesh::json::Value;
use vaultmesh::json::hash_canonical;
use vaultmesh::schema::{
    schema_verdict, validate_provenance, validate_provenance_bytes, validate_receipt,
    validate_receipt_bytes, SchemaError,
};

fn text(s: &str) -> Value {
    Value::Text(s.to_string())
}

fn object(members: Vec<(&str, Value)>) -> Value {
    Value::Object(members.into_iter().map(|(k, v)| (k.to_string(), v)).collect())
}

fn with_member(v: Value, key: &str, value: Value) -> Value {
    match v {
        Value::Object(members) => Value::Object(
            members
                .into_iter()
                .map(|(k, old)| if k == key { (k, value.clone()) } else { (k, old) })
                .collect(),
        ),
        other => other,
    }
}

// Helper: make a minimal valid receipt JSON
fn valid_receipt_json() -> Value {
    object(vec![
        ("actor", object(vec![("id", text("did:key:zTest"))])),
        (
            "env",
            object(vec![
                ("ci", text("github_actions")),
                ("git_commit", text("abc")),
                ("git_ref", text("refs/heads/main")),
            ]),
        ),
        ("ts", text("2025-01-01T00:00:00Z")),
        (
            "subject",
            object(vec![("kind", text("artifact")), ("digest", text("deadbeef"))]),
        ),
    ])
}

// Helper: minimal valid provenance JSON
fn valid_provenance_json() -> Value {
    object(vec![
        ("artifact", text("target/release/vaultmesh")),
        ("artifact_hash", text("deadbeef")),
        ("actor", object(vec![("id", text("did:key:zTest"))])),
        (
            "build",
            object(vec![
                ("repo", text("org/repo")),
                ("commit", text("abc")),
                ("ref", text("refs/heads/main")),
            ]),
        ),
        (
            "ci",
            object(vec![
                ("name", text("github_actions")),
                ("url", text("https://example/run/1")),
                ("runner", text("r1")),
            ]),
        ),
        ("ts", object(vec![("built", text("2025-01-01T00:00:00Z"))])),
    ])
}

#[test]
fn receipt_schema_rejects_missing_required_fields() {
    // Missing 'actor'
    let bad = object(vec![
        ("env", object(vec![])),
        ("ts", text("2025-01-01T00:00:00Z")),
        (
            "subject",
            object(vec![("kind", text("artifact")), ("digest", text("x"))]),
        ),
    ]);
    let err = validate_receipt(&bad).unwrap_err();
    assert!(err.to_string().contains("receipt schema violation"));

    // Bad ts format
    let v = with_member(valid_receipt_json(), "ts", text("not-a-datetime"));
    let err = validate_receipt(&v).unwrap_err();
    assert!(err.to_string().contains("schema"));
}

#[test]
fn provenance_schema_rejects_missing_required_fields() {
    // Missing 'artifact_hash'
    let bad = object(vec![
        ("artifact", text("x")),
        ("actor", object(vec![("id", text("did:key:z"))])),
        ("build", object(vec![])),
        ("ci", object(vec![])),
        ("ts", object(vec![("built", text("2025-01-01T00:00:00Z"))])),
    ]);
    let err = validate_provenance(&bad).unwrap_err();
    assert!(err.to_string().contains("provenance schema violation"));
}

#[test]
fn valid_receipt_and_provenance_pass_validation() {
    validate_receipt(&valid_receipt_json()).expect("receipt valid");
    validate_provenance(&valid_provenance_json()).expect("prov valid");
}

// Bonus: the canonical hash should be order-independent for maps
#[test]
fn canonical_hash_is_stable() {
    let a = valid_receipt_json();
    let b = a.clone();

    // reorder env keys to simulate nondeterministic map order
    let b = with_member(
        b,
        "env",
        object(vec![
            ("git_ref", text("refs/heads/main")),
            ("git_commit", text("abc")),
            ("ci", text("github_actions")),
        ]),
    );

    let da = hash_canonical(&a);
    let db = hash_canonical(&b);
    assert_eq!(da, db, "canonical hash must ignore key order differences");
}

#[test]
fn a_receipt_is_no_provenance_record_and_the_other_way_round() {
    assert!(validate_provenance(&valid_receipt_json()).is_err());
    assert!(validate_receipt(&valid_provenance_json()).is_err());
}

#[test]
fn bytes_that_are_no_json_violate_the_schema() {
    let err = validate_receipt_bytes(b"{not json").unwrap_err();
    assert!(matches!(err, SchemaError::Violation(_)));
    assert!(err.to_string().starts_with("receipt schema violation: "));
    assert!(validate_provenance_bytes(b"").is_err());
    assert!(validate_receipt_bytes(
        br#"{"actor":{"id":"a"},"env":{},"ts":"2025-01-01T00:00:00Z","subject":{"kind":"k","digest":"d"},"more":1}"#
    )
    .is_ok());
}

#[test]
fn wrong_types_violate_the_schema() {
    let v = with_member(valid_receipt_json(), "actor", text("me"));
    assert!(validate_receipt(&v).is_err());
    let v = with_member(valid_receipt_json(), "env", Value::Array(vec![]));
    assert!(validate_receipt(&v).is_err());
    let v = with_member(
        valid_provenance_json(),
        "ts",
        object(vec![("built", text("yesterday"))]),
    );
    assert!(validate_provenance(&v).is_err());
}

#[test]
fn verdict_joins_the_messages() {
    assert!(schema_verdict("receipt", Ok(vec![])).is_ok());
    let err = schema_verdict("receipt", Ok(vec!["a".to_string(), "b".to_string()])).unwrap_err();
    assert!(matches!(err, SchemaError::Violation(_)));
    assert_eq!(err.to_string(), "receipt schema violation: a; b");
    let err = schema_verdict("provenance", Ok(vec!["only".to_string()])).unwrap_err();
    assert_eq!(err.to_string(), "provenance schema violation: only");
    let err = schema_verdict("receipt", Err("broken".to_string())).unwrap_err();
    assert!(matches!(err, SchemaError::InvalidSchema(_)));
    assert_eq!(err.to_string(), "invalid receipt schema: broken");
}
