use vaultmesh::json::{to_text, Value};
use vaultmesh::ledger::{
    classify, entry_file_name, entry_name_of_file, kind_from, Entry, Ledger, LedgerError,
};

fn text(s: &str) -> Value {
    Value::Text(s.to_string())
}

fn object(members: Vec<(&str, Value)>) -> Value {
    Value::Object(members.into_iter().map(|(k, v)| (k.to_string(), v)).collect())
}

fn receipt_json() -> Value {
    object(vec![
        ("actor", object(vec![("id", text("did:test:actor"))])),
        ("env", object(vec![("git_commit", text("abc")), ("git_ref", text("main"))])),
        ("ts", text("2024-01-01T00:00:00Z")),
        ("subject", object(vec![("kind", text("demo")), ("digest", text("deadbeef"))])),
    ])
}

fn provenance_json() -> Value {
    object(vec![
        ("artifact", text("artifact.bin")),
        ("artifact_hash", text("deadbeef")),
        ("actor", object(vec![("id", text("did:test:actor"))])),
        ("build", object(vec![])),
        ("ci", object(vec![])),
        ("ts", object(vec![("built", text("2024-01-01T00:00:00Z"))])),
    ])
}

#[test]
fn classify_receipt_and_provenance() {
    let mut ledger = Ledger::new();

    // Minimal valid shapes per current schema
    let receipt = receipt_json();
    let provenance = provenance_json();

    // Store under given names to simulate an existing store
    ledger.put("deadbeef.json".to_string(), to_text(&receipt).into_bytes());
    ledger.put("beadfeed.json".to_string(), to_text(&provenance).into_bytes());

    let entries = ledger.list();
    assert_eq!(entries.len(), 2);
    let kinds: Vec<_> = entries.iter().map(|e| e.kind.as_str()).collect();
    assert!(kinds.contains(&"receipt"));
    assert!(kinds.contains(&"provenance"));
}

#[test]
fn listing_keeps_the_order_and_names_the_kind() {
    let mut ledger = Ledger::new();
    ledger.put("p.json".to_string(), to_text(&provenance_json()).into_bytes());
    ledger.put("u.json".to_string(), b"[1,2".to_vec());
    ledger.put("notes.txt".to_string(), to_text(&receipt_json()).into_bytes());
    ledger.put("r.json".to_string(), to_text(&receipt_json()).into_bytes());
    assert_eq!(
        ledger.list(),
        vec![
            Entry { kind: "provenance".to_string(), digest: "p".to_string() },
            Entry { kind: "unknown".to_string(), digest: "u".to_string() },
            Entry { kind: "receipt".to_string(), digest: "r".to_string() },
        ]
    );
}

#[test]
fn kind_is_decided_by_the_schemas_receipt_first() {
    assert_eq!(classify(to_text(&receipt_json()).as_bytes()), "receipt");
    assert_eq!(classify(to_text(&provenance_json()).as_bytes()), "provenance");
    assert_eq!(classify(b"{}"), "unknown");
    assert_eq!(classify(b"not json"), "unknown");
    assert_eq!(kind_from(true, true), "receipt");
    assert_eq!(kind_from(true, false), "receipt");
    assert_eq!(kind_from(false, true), "provenance");
    assert_eq!(kind_from(false, false), "unknown");
}

#[test]
fn adding_stores_under_the_digest() {
    let mut ledger = Ledger::new();
    let digest = ledger.add_json("receipt", b"{\"a\":1}", None, None);
    assert_eq!(digest, hex::encode(blake3::hash(b"{\"a\":1}").as_bytes()));
    assert_eq!(ledger.get_json(&digest), Ok(b"{\"a\":1}".to_vec()));
    assert_eq!(ledger.len(), 1);
    assert_eq!(ledger.name_at(0), &format!("{digest}.json"));
    assert_eq!(
        ledger.list(),
        vec![Entry { kind: "unknown".to_string(), digest: digest.clone() }]
    );
    assert_eq!(ledger.bytes_at(0), &b"{\"a\":1}".to_vec());
}

#[test]
fn adding_the_same_bytes_twice_changes_nothing() {
    let mut ledger = Ledger::new();
    let other = ledger.add_json("x", b"other", None, None);
    let first = ledger.add_json("receipt", b"same", Some("c".to_string()), None);
    let listed = ledger.list();
    let second = ledger.add_json("provenance", b"same", None, Some("r".to_string()));
    assert_eq!(first, second);
    assert_ne!(first, other);
    assert_eq!(ledger.len(), 2);
    assert_eq!(ledger.list(), listed);
    assert_eq!(ledger.get_json(&first), Ok(b"same".to_vec()));
}

#[test]
fn what_is_not_there_is_not_found() {
    let mut ledger = Ledger::new();
    assert_eq!(ledger.get_json("00"), Err(LedgerError::NotFound));
    ledger.add_json("x", b"bytes", None, None);
    assert_eq!(ledger.get_json("00"), Err(LedgerError::NotFound));
    assert_eq!(ledger.get_json(""), Err(LedgerError::NotFound));
}

#[test]
fn putting_under_a_name_replaces_what_was_there() {
    let mut ledger = Ledger::new();
    ledger.put("a.json".to_string(), b"1".to_vec());
    ledger.put("b.json".to_string(), b"2".to_vec());
    ledger.put("a.json".to_string(), b"3".to_vec());
    assert_eq!(ledger.len(), 2);
    assert_eq!(ledger.get_json("a"), Ok(b"3".to_vec()));
    assert_eq!(ledger.name_at(0), "a.json");
    assert_eq!(ledger.bytes_at(0), &b"3".to_vec());
}

#[test]
fn entries_are_kept_in_json_files() {
    assert_eq!(entry_file_name("abc"), "abc.json");
    assert_eq!(entry_name_of_file("abc.json"), Some("abc".to_string()));
    assert_eq!(entry_name_of_file("abc.json.json"), Some("abc".to_string()));
    assert_eq!(entry_name_of_file("abc.JSON"), Some("abc.JSON".to_string()));
    assert_eq!(entry_name_of_file("abc.Json.json"), Some("abc.Json".to_string()));
    assert_eq!(entry_name_of_file(".json"), None);
    assert_eq!(entry_name_of_file("abc.txt"), None);
    assert_eq!(entry_name_of_file("abcjson"), None);
    assert_eq!(entry_name_of_file(""), None);
}

#[test]
fn two_files_may_hold_entries_of_one_name() {
    let mut ledger = Ledger::new();
    ledger.put("x.json".to_string(), to_text(&receipt_json()).into_bytes());
    ledger.put("x.json.json".to_string(), to_text(&provenance_json()).into_bytes());
    ledger.put("x.JSON".to_string(), b"?".to_vec());
    ledger.put("x".to_string(), b"!".to_vec());
    assert_eq!(ledger.len(), 4);
    assert_eq!(
        ledger.list(),
        vec![
            Entry { kind: "receipt".to_string(), digest: "x".to_string() },
            Entry { kind: "provenance".to_string(), digest: "x".to_string() },
            Entry { kind: "unknown".to_string(), digest: "x.JSON".to_string() },
        ]
    );
    assert_eq!(ledger.get_json("x"), Ok(to_text(&receipt_json()).into_bytes()));
    assert_eq!(ledger.get_json("x.json"), Ok(to_text(&provenance_json()).into_bytes()));
}
