use vaultmesh::anchor::{
    anchor, canonical_leaf_hex, canonical_payload_json, emit, finalize, remove_leaf_and_merkle,
    seal, verify, verify_leaf, BatchError, Receipt, RootDoc, Sign, VerifyError,
};
use vaultmesh::json::{to_text, Value};
use vaultmesh::merkle::fold_path_to_root;

fn hash(data: &[u8]) -> String {
    hex::encode(blake3::hash(data).as_bytes())
}

fn emitted(target: &str) -> Receipt {
    emit(
        "01ARZ3NDEKTSV4RRFFQ69G5FAV".to_string(),
        "2025-01-01T00:00:00Z".to_string(),
        "terraform".to_string(),
        target.to_string(),
        b"plan",
        "deploy".to_string(),
        "alice".to_string(),
        "org/repo".to_string(),
        "abc123".to_string(),
        "dev-binary".to_string(),
    )
}

fn root_json(doc: &RootDoc) -> Value {
    doc.to_json()
}

#[test]
fn emit_records_the_plan_by_its_digest() {
    let rec = emitted("prod");
    assert_eq!(rec.op.plan_hash, hash(b"plan"));
    assert_eq!(rec.op.apply_hash, "");
    assert_eq!(rec.actor.id, "did:placeholder");
    assert_eq!(rec.actor.cap, vec!["deploy".to_string()]);
    assert_eq!(rec.op.approvals, vec!["alice".to_string()]);
    assert_eq!(rec.sign.alg, "none");
    assert_eq!(rec.merkle.root, "");
    assert_eq!(rec.leaf, canonical_leaf_hex(&rec));
}

#[test]
fn unsigned_block_says_none() {
    let s = Sign::none();
    assert_eq!((s.alg.as_str(), s.sig.as_str(), s.pub_.as_str()), ("none", "", ""));
}

#[test]
fn payload_is_the_canonical_text_without_leaf_and_anchor() {
    let rec = emitted("prod");
    let expected = [
        r#"{"actor":{"cap":["deploy"],"id":"did:placeholder","sig":""},"#,
        r#""build":{"binary_hash":"dev-binary","commit":"abc123","repo":"org/repo"},"#,
        r#""env":{"ci":null,"plugins":null,"runner":null,"tf_version":null},"#,
        r#""id":"01ARZ3NDEKTSV4RRFFQ69G5FAV","#,
        r#""op":{"apply_hash":"","approvals":["alice"],"change_window":null,"kind":"terraform","#,
        r#""plan_hash":""#,
        &hash(b"plan"),
        r#"","risk":null,"target":"prod"},"#,
        r#""sign":{"alg":"none","pub_":"","sig":""},"ts":"2025-01-01T00:00:00Z"}"#,
    ]
    .concat();
    assert_eq!(canonical_payload_json(&rec), expected);
    assert_eq!(rec.leaf, hash(expected.as_bytes()));
    let stripped = remove_leaf_and_merkle(&rec.to_json());
    assert!(stripped.get("leaf").is_none() && stripped.get("merkle").is_none());
    assert!(stripped.get("op").is_some());
}

#[test]
fn receipt_json_carries_leaf_and_anchor() {
    let rec = emitted("prod");
    let v = rec.to_json();
    assert_eq!(v.get_text("leaf"), Some(rec.leaf.clone()));
    assert_eq!(
        v.get("merkle").map(to_text),
        Some(r#"{"date":"","path":[],"root":""}"#.to_string())
    );
}

#[test]
fn finalize_records_what_was_applied() {
    let rec = emitted("prod");
    let before = rec.leaf.clone();
    let done = finalize(rec, b"post");
    assert_eq!(done.op.apply_hash, hash(b"post"));
    assert_eq!(done.op.plan_hash, hash(b"plan"));
    assert_ne!(done.leaf, before);
    assert_eq!(done.leaf, canonical_leaf_hex(&done));
}

#[test]
fn seal_counts_and_sorts() {
    let leaves = vec![hash(b"3"), hash(b"1"), hash(b"2")];
    let doc = seal("2025-01-01".to_string(), &leaves).unwrap();
    assert_eq!(doc.date, "2025-01-01");
    assert_eq!(doc.count, 3);
    let mut other = leaves.clone();
    other.reverse();
    assert_eq!(seal("2025-01-01".to_string(), &other).unwrap().root, doc.root);
    other.swap(0, 1);
    assert_eq!(seal("2025-01-01".to_string(), &other).unwrap().root, doc.root);
    assert_eq!(
        to_text(&doc.to_json()),
        format!(r#"{{"date":"2025-01-01","root":"{}","count":3}}"#, doc.root)
    );
}

#[test]
fn seal_of_an_empty_day_has_the_empty_root() {
    let doc = seal("2025-01-02".to_string(), &vec![]).unwrap();
    assert_eq!((doc.root.as_str(), doc.count), ("", 0));
}

#[test]
fn leaves_must_be_hexadecimal() {
    let leaves = vec![hash(b"1"), "xyz".to_string()];
    assert_eq!(seal("d".to_string(), &leaves).unwrap_err(), BatchError::MalformedLeaf);
    assert_eq!(
        anchor(emitted("prod"), &leaves, "d".to_string()).unwrap_err(),
        BatchError::MalformedLeaf
    );
    assert_eq!(BatchError::MalformedLeaf.to_string(), "leaf is not hexadecimal");
}

#[test]
fn a_receipt_outside_the_batch_is_not_anchored() {
    let leaves = vec![hash(b"1"), hash(b"2")];
    let err = anchor(emitted("prod"), &leaves, "2025-01-01".to_string()).unwrap_err();
    assert_eq!(err, BatchError::LeafNotFound);
    assert_eq!(
        err.to_string(),
        "leaf not found in set; ensure dir is the correct date"
    );
    assert_eq!(
        anchor(emitted("prod"), &vec![], "2025-01-01".to_string()).unwrap_err(),
        BatchError::LeafNotFound
    );
}

#[test]
fn emit_finalize_seal_anchor_verify() {
    let rec = finalize(emitted("prod/db"), b"applied");
    assert_eq!(rec.op.plan_hash, hash(b"plan"));
    assert_eq!(rec.op.apply_hash, hash(b"applied"));
    let others = [finalize(emitted("prod/web"), b"w"), finalize(emitted("prod/cache"), b"c")];
    let leaves = vec![others[0].leaf.clone(), rec.leaf.clone(), others[1].leaf.clone()];

    let doc = seal("2025-01-01".to_string(), &leaves).unwrap();
    assert_eq!(doc.count, 3);
    let anchored = anchor(rec, &leaves, "2025-01-01".to_string()).unwrap();
    assert_eq!(anchored.merkle.date, "2025-01-01");
    assert_eq!(anchored.merkle.root, doc.root);
    assert_eq!(anchored.merkle.path.len(), 2);
    assert_eq!(fold_path_to_root(&anchored.leaf, &anchored.merkle.path), doc.root);

    assert_eq!(verify(&anchored, &root_json(&doc), false), Ok(()));
    assert_eq!(verify(&anchored, &root_json(&doc), true), Ok(()));

    let mut tampered = anchor(
        finalize(emitted("prod/db"), b"applied"),
        &leaves,
        "2025-01-01".to_string(),
    )
    .unwrap();
    tampered.op.target.replace_range(0..1, "q");
    let err = verify(&tampered, &root_json(&doc), false).unwrap_err();
    assert_eq!(err, VerifyError::LeafMismatch);
    assert_eq!(verify_leaf(&tampered), Err(VerifyError::LeafMismatch));
    assert_eq!(verify_leaf(&anchored), Ok(()));
    assert_eq!(doc.root.len(), 64);
    assert!(err.to_string().starts_with("leaf mismatch"));
}

#[test]
fn verify_names_the_check_that_failed() {
    let rec = finalize(emitted("prod"), b"applied");
    let leaves = vec![rec.leaf.clone(), hash(b"x")];
    let doc = seal("2025-01-01".to_string(), &leaves).unwrap();
    let good = anchor(rec, &leaves, "2025-01-01".to_string()).unwrap();
    let root = root_json(&doc);

    let wrong = RootDoc { date: doc.date.clone(), root: hash(b"elsewhere"), count: 2 };
    let err = verify(&good, &wrong.to_json(), false).unwrap_err();
    assert_eq!(err, VerifyError::RootMismatch);
    assert_eq!(err.to_string(), "path->root mismatch");

    let err = verify(&good, &Value::Object(vec![]), false).unwrap_err();
    assert_eq!(err, VerifyError::InvalidRoot);
    assert_eq!(err.to_string(), "invalid root.json");

    let rec = finalize(emitted("prod"), b"applied");
    let mut odd = anchor(rec, &leaves, "2025-01-01".to_string()).unwrap();
    odd.merkle.path[0] = "not hex".to_string();
    assert_eq!(verify(&odd, &root, false).unwrap_err(), VerifyError::MalformedPath);

    let rec = finalize(emitted("prod"), b"applied");
    let mut cut = anchor(rec, &leaves, "2025-01-01".to_string()).unwrap();
    cut.merkle.path.clear();
    assert_eq!(verify(&cut, &root, false).unwrap_err(), VerifyError::RootMismatch);
}

#[test]
fn strict_asks_for_capability_approval_and_digests() {
    let leaves_of = |r: &Receipt| vec![r.leaf.clone()];

    let rec = emitted("prod");
    let leaves = leaves_of(&rec);
    let doc = seal("d".to_string(), &leaves).unwrap();
    let pending = anchor(rec, &leaves, "d".to_string()).unwrap();
    assert_eq!(verify(&pending, &doc.to_json(), false), Ok(()));
    let err = verify(&pending, &doc.to_json(), true).unwrap_err();
    assert_eq!(err, VerifyError::MissingHashes);
    assert_eq!(err.to_string(), "strict: missing plan/apply hashes");

    let mut rec = finalize(emitted("prod"), b"a");
    rec.actor.cap.clear();
    let rec = vaultmesh::anchor::with_leaf(rec);
    let leaves = leaves_of(&rec);
    let doc = seal("d".to_string(), &leaves).unwrap();
    let bare = anchor(rec, &leaves, "d".to_string()).unwrap();
    let err = verify(&bare, &doc.to_json(), true).unwrap_err();
    assert_eq!(err, VerifyError::MissingCapability);
    assert_eq!(err.to_string(), "strict: missing capability");

    let mut rec = finalize(emitted("prod"), b"a");
    rec.op.approvals.clear();
    let rec = vaultmesh::anchor::with_leaf(rec);
    let leaves = leaves_of(&rec);
    let doc = seal("d".to_string(), &leaves).unwrap();
    let lone = anchor(rec, &leaves, "d".to_string()).unwrap();
    let err = verify(&lone, &doc.to_json(), true).unwrap_err();
    assert_eq!(err, VerifyError::MissingApprovals);
    assert_eq!(err.to_string(), "strict: missing approvals");
}
