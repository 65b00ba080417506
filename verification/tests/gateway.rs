use vaultmesh::crypto::Keypair;
use vaultmesh::gateway::{
    current_root, get_receipt, health, verify_bundle, Reason, Status,
};
use vaultmesh::json::{canonical_string, remove_key, to_text, Value};
use vaultmesh::ledger::Ledger;
use vaultmesh::receipt::{sign_receipt, Actor, Receipt, SignatureError, Subject};
use vaultmesh::strmap::StringMap;
use vaultmesh::sync::merkle_root;
use vaultmesh::sync::policy::{PeerGuard, PeerPolicy};

fn text(s: &str) -> Value {
    Value::Text(s.to_string())
}

fn object(members: Vec<(&str, Value)>) -> Value {
    Value::Object(members.into_iter().map(|(k, v)| (k.to_string(), v)).collect())
}

fn signed_receipt(actor: &str, digest: &str) -> Value {
    let mut env = StringMap::new();
    env.insert("git_commit".to_string(), "abc".to_string());
    let r = Receipt {
        actor: Actor { id: actor.to_string() },
        env,
        ts: "2025-01-01T00:00:00Z".to_string(),
        subject: Subject { kind: "artifact".to_string(), digest: digest.to_string(), meta: None },
        sign: None,
        provenance: None,
        provenance_ref: None,
    };
    sign_receipt(r, &Keypair::from_secret(&[7u8; 32]).unwrap()).to_json()
}

fn provenance() -> Value {
    object(vec![
        ("artifact", text("artifact.bin")),
        ("artifact_hash", text("deadbeef")),
        ("actor", object(vec![("id", text("did:test:actor"))])),
        ("build", object(vec![])),
        ("ci", object(vec![])),
        ("ts", object(vec![("built", text("2024-01-01T00:00:00Z"))])),
    ])
}

fn bundle(receipt: Value, provenance: Value) -> Value {
    Value::Object(vec![
        ("receipt".to_string(), receipt),
        ("provenance".to_string(), provenance),
    ])
}

fn open_guard() -> PeerGuard {
    PeerGuard::new(None)
}

fn digest_of(v: &Value) -> String {
    hex::encode(blake3::hash(canonical_string(v).as_bytes()).as_bytes())
}

#[test]
fn health_is_ok() {
    assert_eq!(health(), "ok");
}

#[test]
fn a_good_bundle_is_taken_in() {
    let mut ledger = Ledger::new();
    let receipt = signed_receipt("did:test:actor", "deadbeef");
    let out = verify_bundle(&bundle(receipt.clone(), provenance()), &open_guard(), &mut ledger)
        .expect("verified");
    assert_eq!(out.status, "verified");
    assert_eq!(out.receipt_digest, digest_of(&receipt));
    assert_eq!(ledger.len(), 2);
    assert_eq!(
        ledger.get_json(&out.receipt_digest),
        Ok(canonical_string(&receipt).into_bytes())
    );
    assert_eq!(
        ledger.get_json(&digest_of(&provenance())),
        Ok(canonical_string(&provenance()).into_bytes())
    );
    assert_eq!(out.merkle_root, merkle_root(&[digest_of(&receipt)]));
    assert_eq!(out.merkle_root, current_root(&ledger));
    assert_eq!(out.merkle_root.len(), 64);
    assert_eq!(ledger.name_at(0), &format!("{}.json", out.receipt_digest));
    assert_eq!(
        get_receipt(&ledger, &out.receipt_digest).unwrap(),
        canonical_string(&receipt).into_bytes()
    );
}

#[test]
fn the_root_covers_all_receipts_sorted() {
    let mut ledger = Ledger::new();
    let a = signed_receipt("did:test:actor", "aa");
    let b = signed_receipt("did:test:actor", "bb");
    let first = verify_bundle(&bundle(a.clone(), provenance()), &open_guard(), &mut ledger).unwrap();
    let second = verify_bundle(&bundle(b.clone(), provenance()), &open_guard(), &mut ledger).unwrap();
    assert_eq!(ledger.len(), 3);
    let mut digests = vec![digest_of(&a), digest_of(&b)];
    digests.sort();
    assert_eq!(second.merkle_root, merkle_root(&digests));
    assert_ne!(first.merkle_root, second.merkle_root);

    let again = verify_bundle(&bundle(a, provenance()), &open_guard(), &mut ledger).unwrap();
    assert_eq!(ledger.len(), 3);
    assert_eq!(again.merkle_root, second.merkle_root);
    assert_eq!(again.receipt_digest, first.receipt_digest);
}

#[test]
fn an_actor_that_is_not_listed_is_forbidden() {
    let guard = PeerGuard::new(Some(PeerPolicy { allow_ids: vec!["did:test:friend".to_string()] }));
    let mut ledger = Ledger::new();
    ledger.add_json("x", b"kept", None, None);
    let before = ledger.list();
    let err = verify_bundle(
        &bundle(signed_receipt("did:test:stranger", "deadbeef"), provenance()),
        &guard,
        &mut ledger,
    )
    .unwrap_err();
    assert_eq!(err.status, Status::Forbidden);
    assert_eq!(err.status.code(), 403);
    assert_eq!(err.reason, Reason::ActorNotAllowed);
    assert_eq!(err.message, "actor not allowed: did:test:stranger");
    assert_eq!(ledger.len(), 1);
    assert_eq!(ledger.list(), before);

    let ok = verify_bundle(
        &bundle(signed_receipt("did:test:friend", "deadbeef"), provenance()),
        &guard,
        &mut ledger,
    );
    assert!(ok.is_ok());
    assert_eq!(ledger.len(), 3);
}

#[test]
fn policy_is_asked_before_the_signature() {
    let guard = PeerGuard::new(Some(PeerPolicy { allow_ids: vec!["did:test:friend".to_string()] }));
    let mut ledger = Ledger::new();
    let unsigned = remove_key(&signed_receipt("did:test:stranger", "d"), "sign");
    let err = verify_bundle(&bundle(unsigned, provenance()), &guard, &mut ledger).unwrap_err();
    assert_eq!(err.reason, Reason::ActorNotAllowed);
}

#[test]
fn a_bad_signature_is_unprocessable() {
    let mut ledger = Ledger::new();
    let unsigned = remove_key(&signed_receipt("did:test:actor", "d"), "sign");
    let err = verify_bundle(&bundle(unsigned, provenance()), &open_guard(), &mut ledger).unwrap_err();
    assert_eq!(err.status, Status::Unprocessable);
    assert_eq!(err.status.code(), 422);
    assert_eq!(err.reason, Reason::Signature(SignatureError::MissingSign));
    assert_eq!(err.message, "missing sign");

    let tampered = match signed_receipt("did:test:actor", "d") {
        Value::Object(members) => Value::Object(
            members
                .into_iter()
                .map(|(k, v)| if k == "ts" { (k, text("2025-01-02T00:00:00Z")) } else { (k, v) })
                .collect(),
        ),
        other => other,
    };
    let err = verify_bundle(&bundle(tampered, provenance()), &open_guard(), &mut ledger).unwrap_err();
    assert_eq!(err.reason, Reason::Signature(SignatureError::Mismatch));
    assert_eq!(ledger.len(), 0);
}

#[test]
fn malformed_input_is_a_bad_request() {
    let mut ledger = Ledger::new();
    let guard = open_guard();
    let receipt = signed_receipt("did:test:actor", "d");

    let err = verify_bundle(
        &Value::Object(vec![("provenance".to_string(), provenance())]),
        &guard,
        &mut ledger,
    )
    .unwrap_err();
    assert_eq!((err.status, err.reason), (Status::BadRequest, Reason::MissingReceipt));
    assert_eq!(err.message, "missing receipt");
    assert_eq!(err.status.code(), 400);

    let err = verify_bundle(
        &Value::Object(vec![("receipt".to_string(), receipt.clone())]),
        &guard,
        &mut ledger,
    )
    .unwrap_err();
    assert_eq!((err.status, err.reason), (Status::BadRequest, Reason::MissingProvenance));
    assert_eq!(err.message, "missing provenance");

    let err = verify_bundle(&text("bundle"), &guard, &mut ledger).unwrap_err();
    assert_eq!(err.reason, Reason::MissingReceipt);

    let err = verify_bundle(
        &bundle(remove_key(&receipt, "ts"), provenance()),
        &guard,
        &mut ledger,
    )
    .unwrap_err();
    assert_eq!((err.status, err.reason), (Status::BadRequest, Reason::ReceiptSchema));
    assert!(err.message.starts_with("receipt schema violation: "));

    let err = verify_bundle(
        &bundle(receipt.clone(), remove_key(&provenance(), "ci")),
        &guard,
        &mut ledger,
    )
    .unwrap_err();
    assert_eq!((err.status, err.reason), (Status::BadRequest, Reason::ProvenanceSchema));
    assert!(err.message.starts_with("provenance schema violation: "));

    let odd_env = match remove_key(&receipt, "env") {
        Value::Object(mut members) => {
            members.push(("env".to_string(), object(vec![("n", Value::Number("1".to_string()))])));
            Value::Object(members)
        },
        other => other,
    };
    let err = verify_bundle(&bundle(odd_env, provenance()), &guard, &mut ledger).unwrap_err();
    assert_eq!((err.status, err.reason), (Status::BadRequest, Reason::MalformedReceipt));
    assert_eq!(err.message, "malformed receipt");
    assert_eq!(ledger.len(), 0);
}

#[test]
fn what_is_not_stored_is_not_found() {
    let ledger = Ledger::new();
    let err = get_receipt(&ledger, "00").unwrap_err();
    assert_eq!(err.status, Status::NotFound);
    assert_eq!(err.status.code(), 404);
    assert_eq!(err.reason, Reason::NotStored);
    assert_eq!(err.message, "not found");
    assert_eq!(Status::RequestTimeout.code(), 408);
    assert_eq!(Status::InternalError.code(), 500);
}

#[test]
fn the_root_ignores_what_is_no_receipt() {
    let mut ledger = Ledger::new();
    ledger.put("zz.json".to_string(), to_text(&signed_receipt("a", "1")).into_bytes());
    ledger.put("mm.json".to_string(), b"junk".to_vec());
    ledger.put("aa.json".to_string(), to_text(&signed_receipt("a", "2")).into_bytes());
    ledger.put("pp.json".to_string(), to_text(&provenance()).into_bytes());
    ledger.put("rr.txt".to_string(), to_text(&signed_receipt("a", "3")).into_bytes());
    assert_eq!(
        current_root(&ledger),
        merkle_root(&["aa".to_string(), "zz".to_string()])
    );
    assert_eq!(current_root(&Ledger::new()), merkle_root(&[]));
}
