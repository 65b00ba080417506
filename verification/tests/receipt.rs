use vaultmesh::crypto::Keypair;
use vaultmesh::json::{canonical_string, remove_key, to_text, Value};
use vaultmesh::receipt::{
    build_provenance, build_receipt, canonical_json_bytes, map_from_json, map_to_json, sign_receipt, signature_verdict, signing_digest, verify_receipt,
    Actor, Build, CiInfo, Provenance, ProvenanceRef, Receipt, Sign, SignatureError, Subject,
    TsInfo,
};
use vaultmesh::strmap::StringMap;

fn text(s: &str) -> Value {
    Value::Text(s.to_string())
}

fn object(members: Vec<(&str, Value)>) -> Value {
    Value::Object(members.into_iter().map(|(k, v)| (k.to_string(), v)).collect())
}

fn b64(data: &[u8]) -> String {
    base64::Engine::encode(&base64::engine::general_purpose::STANDARD, data)
}

fn unb64(text: &str) -> Vec<u8> {
    base64::Engine::decode(&base64::engine::general_purpose::STANDARD, text).unwrap()
}

fn provenance() -> Provenance {
    Provenance {
        artifact: "a.bin".to_string(),
        artifact_hash: "beef".to_string(),
        actor: Actor { id: "did:test:builder".to_string() },
        build: Build { repo: Some("org/repo".to_string()), commit: None, git_ref: Some("main".to_string()) },
        ci: CiInfo { name: None, url: None, runner: Some("r1".to_string()) },
        ts: TsInfo { built: "2025-01-01T00:00:00Z".to_string() },
    }
}

fn receipt() -> Receipt {
    let mut env = StringMap::new();
    env.insert("git_commit".to_string(), "abc".to_string());
    env.insert("ci".to_string(), "github_actions".to_string());
    Receipt {
        actor: Actor { id: "did:test:actor".to_string() },
        env,
        ts: "2025-01-01T00:00:00Z".to_string(),
        subject: Subject {
            kind: "artifact".to_string(),
            digest: "deadbeef".to_string(),
            meta: Some(object(vec![("size", Value::Number("3".to_string()))])),
        },
        sign: None,
        provenance: Some(provenance()),
        provenance_ref: Some(ProvenanceRef { path: "p.json".to_string(), digest: "cafe".to_string() }),
    }
}

fn keys() -> Keypair {
    Keypair::from_secret(&[42u8; 32]).unwrap()
}

#[test]
fn receipt_json_has_the_members_in_their_order() {
    let r = receipt();
    assert_eq!(
        to_text(&r.to_json()),
        concat_all(&[
            r#"{"actor":{"id":"did:test:actor"},"#,
            r#""env":{"ci":"github_actions","git_commit":"abc"},"#,
            r#""ts":"2025-01-01T00:00:00Z","#,
            r#""subject":{"kind":"artifact","digest":"deadbeef","meta":{"size":3}},"#,
            r#""sign":null,"#,
            r#""provenance":{"artifact":"a.bin","artifact_hash":"beef","actor":{"id":"did:test:builder"},"#,
            r#""build":{"repo":"org/repo","commit":null,"ref":"main"},"#,
            r#""ci":{"name":null,"url":null,"runner":"r1"},"ts":{"built":"2025-01-01T00:00:00Z"}},"#,
            r#""provenance_ref":{"path":"p.json","digest":"cafe"}}"#,
        ])
    );
}

fn concat_all(parts: &[&str]) -> String {
    parts.concat()
}

#[test]
fn optional_members_are_left_out_where_there_is_nothing() {
    let mut r = receipt();
    r.subject.meta = None;
    r.provenance = None;
    r.provenance_ref = None;
    r.sign = Some(Sign { pub_: "p".to_string(), signature: "s".to_string(), alg: None });
    assert_eq!(
        to_text(&r.to_json()),
        concat_all(&[
            r#"{"actor":{"id":"did:test:actor"},"env":{"ci":"github_actions","git_commit":"abc"},"#,
            r#""ts":"2025-01-01T00:00:00Z","subject":{"kind":"artifact","digest":"deadbeef"},"#,
            r#""sign":{"pub":"p","sig":"s"}}"#,
        ])
    );
}

#[test]
fn receipt_is_read_back_from_its_json() {
    let r = sign_receipt(receipt(), &keys());
    let v = r.to_json();
    let back = Receipt::from_json(&v).expect("reads as a receipt");
    assert_eq!(to_text(&back.to_json()), to_text(&v));
    assert_eq!(back.actor.id, "did:test:actor");
    assert_eq!(back.env.get("ci").cloned(), Some("github_actions".to_string()));
    assert_eq!(back.sign.as_ref().unwrap().alg, Some("ed25519".to_string()));
}

#[test]
fn reading_drops_unknown_members_and_takes_null_for_missing() {
    let v = object(vec![
        ("extra", text("x")),
        ("subject", object(vec![("digest", text("d")), ("kind", text("k")), ("meta", Value::Null)])),
        ("ts", text("t")),
        ("env", object(vec![("a", text("1")), ("a", text("2"))])),
        ("actor", object(vec![("id", text("me")), ("more", Value::Null)])),
        ("provenance", Value::Null),
    ]);
    let r = Receipt::from_json(&v).expect("reads as a receipt");
    assert!(r.sign.is_none() && r.provenance.is_none() && r.provenance_ref.is_none());
    assert!(r.subject.meta.is_none());
    assert_eq!(r.env.len(), 1);
    assert_eq!(r.env.get("a").cloned(), Some("2".to_string()));
    assert_eq!(
        to_text(&r.to_json()),
        r#"{"actor":{"id":"me"},"env":{"a":"2"},"ts":"t","subject":{"kind":"k","digest":"d"},"sign":null}"#
    );
}

#[test]
fn reading_refuses_what_is_no_receipt() {
    let good = receipt().to_json();
    assert!(Receipt::from_json(&good).is_some());
    for key in ["actor", "env", "ts", "subject"] {
        assert!(Receipt::from_json(&remove_key(&good, key)).is_none(), "without {key}");
    }
    let swap = |key: &str, value: Value| match remove_key(&good, key) {
        Value::Object(mut members) => {
            members.push((key.to_string(), value));
            Value::Object(members)
        },
        other => other,
    };
    assert!(Receipt::from_json(&swap("ts", Value::Number("1".to_string()))).is_none());
    assert!(Receipt::from_json(&swap("env", object(vec![("a", Value::Null)]))).is_none());
    assert!(Receipt::from_json(&swap("actor", object(vec![]))).is_none());
    assert!(Receipt::from_json(&swap("sign", object(vec![("pub", text("p"))]))).is_none());
    assert!(Receipt::from_json(&swap("sign", text("s"))).is_none());
    assert!(Receipt::from_json(&swap("provenance", object(vec![]))).is_none());
    assert!(Receipt::from_json(&swap("provenance_ref", object(vec![("path", text("p"))]))).is_none());
    assert!(Receipt::from_json(&text("receipt")).is_none());
    assert!(Build::from_json(&text("b")).is_none());
    assert!(CiInfo::from_json(&object(vec![("name", Value::Bool(true))])).is_none());
    assert!(Build::from_json(&object(vec![])).is_some());
}

#[test]
fn a_map_is_read_from_an_object_of_strings() {
    let m = map_from_json(&object(vec![("b", text("1")), ("a", text("2"))])).unwrap();
    assert_eq!(to_text(&map_to_json(&m)), r#"{"a":"2","b":"1"}"#);
    assert_eq!(m.key_at(0), "b");
    assert!(map_from_json(&Value::Array(vec![])).is_none());
    assert!(map_from_json(&object(vec![("a", text("1")), ("b", Value::Null)])).is_none());
}

#[test]
fn the_signed_digest_leaves_the_signature_block_out() {
    let r = receipt();
    let payload = remove_key(&r.to_json(), "sign");
    let expected = hex::encode(blake3::hash(canonical_string(&payload).as_bytes()).as_bytes());
    assert_eq!(signing_digest(&r), expected);
    let signed = sign_receipt(receipt(), &keys());
    assert_eq!(signing_digest(&signed), expected);
}

#[test]
fn signing_fills_the_signature_block() {
    let pair = keys();
    let signed = sign_receipt(receipt(), &pair);
    let sign = signed.sign.as_ref().unwrap();
    assert_eq!(sign.alg, Some("ed25519".to_string()));
    assert_eq!(unb64(&sign.pub_), *pair.public());
    let digest = signing_digest(&signed);
    assert_eq!(unb64(&sign.signature), pair.sign(digest.as_bytes()));
    assert_ne!(unb64(&sign.signature), pair.sign(&hex::decode(&digest).unwrap()));
    assert_eq!(unb64(&sign.signature).len(), 64);
}

#[test]
fn sign_then_verify_succeeds() {
    let signed = sign_receipt(receipt(), &keys());
    assert_eq!(verify_receipt(&signed), Ok(()));
    let back = Receipt::from_json(&signed.to_json()).unwrap();
    assert_eq!(verify_receipt(&back), Ok(()));
}

#[test]
fn a_change_after_signing_makes_verify_fail() {
    let pair = keys();
    let mut r = sign_receipt(receipt(), &pair);
    r.actor.id.push('x');
    assert_eq!(verify_receipt(&r), Err(SignatureError::Mismatch));

    let mut r = sign_receipt(receipt(), &pair);
    r.ts = "2025-01-01T00:00:01Z".to_string();
    assert_eq!(verify_receipt(&r), Err(SignatureError::Mismatch));

    let mut r = sign_receipt(receipt(), &pair);
    r.env.insert("ci".to_string(), "other".to_string());
    assert_eq!(verify_receipt(&r), Err(SignatureError::Mismatch));

    let mut r = sign_receipt(receipt(), &pair);
    r.subject.meta = None;
    assert_eq!(verify_receipt(&r), Err(SignatureError::Mismatch));

    let mut r = sign_receipt(receipt(), &pair);
    r.provenance.as_mut().unwrap().build.commit = Some("c".to_string());
    assert_eq!(verify_receipt(&r), Err(SignatureError::Mismatch));

    let mut r = sign_receipt(receipt(), &pair);
    r.provenance_ref = None;
    assert_eq!(verify_receipt(&r), Err(SignatureError::Mismatch));
}

#[test]
fn another_key_does_not_verify() {
    let mut r = sign_receipt(receipt(), &keys());
    let other = Keypair::from_secret(&[43u8; 32]).unwrap();
    r.sign.as_mut().unwrap().pub_ = b64(other.public());
    assert_eq!(verify_receipt(&r), Err(SignatureError::Mismatch));
}

#[test]
fn each_failure_has_its_own_error() {
    assert_eq!(verify_receipt(&receipt()), Err(SignatureError::MissingSign));

    let mut r = sign_receipt(receipt(), &keys());
    r.sign.as_mut().unwrap().pub_ = "not base64!".to_string();
    assert_eq!(verify_receipt(&r), Err(SignatureError::BadPublicEncoding));

    let mut r = sign_receipt(receipt(), &keys());
    r.sign.as_mut().unwrap().signature = "@@".to_string();
    assert_eq!(verify_receipt(&r), Err(SignatureError::BadSignatureEncoding));

    let mut r = sign_receipt(receipt(), &keys());
    r.sign.as_mut().unwrap().pub_ = b64(&[1u8; 31]);
    assert_eq!(verify_receipt(&r), Err(SignatureError::BadPublicKey));

    let mut r = sign_receipt(receipt(), &keys());
    r.sign.as_mut().unwrap().signature = b64(&[1u8; 63]);
    assert_eq!(verify_receipt(&r), Err(SignatureError::BadSignature));

    let mut r = sign_receipt(receipt(), &keys());
    r.sign.as_mut().unwrap().signature = b64(&[0xffu8; 64]);
    assert_eq!(verify_receipt(&r), Err(SignatureError::BadSignature));

    let mut r = sign_receipt(receipt(), &keys());
    r.sign.as_mut().unwrap().signature = b64(&[0u8; 64]);
    assert_eq!(verify_receipt(&r), Err(SignatureError::Mismatch));
}

#[test]
fn the_first_failed_step_names_the_error() {
    assert_eq!(
        signature_verdict(false, true, true, true, true, true),
        Err(SignatureError::MissingSign)
    );
    assert_eq!(
        signature_verdict(true, false, false, true, true, true),
        Err(SignatureError::BadPublicEncoding)
    );
    assert_eq!(
        signature_verdict(true, true, false, false, true, true),
        Err(SignatureError::BadSignatureEncoding)
    );
    assert_eq!(
        signature_verdict(true, true, true, false, false, true),
        Err(SignatureError::BadPublicKey)
    );
    assert_eq!(
        signature_verdict(true, true, true, true, false, true),
        Err(SignatureError::BadSignature)
    );
    assert_eq!(
        signature_verdict(true, true, true, true, true, false),
        Err(SignatureError::Mismatch)
    );
    assert_eq!(signature_verdict(true, true, true, true, true, true), Ok(()));
    assert_eq!(SignatureError::MissingSign.to_string(), "missing sign");
    assert_eq!(SignatureError::Mismatch.to_string(), "signature verify failed");
}

#[test]
fn a_key_pair_needs_32_secret_bytes() {
    assert!(Keypair::from_secret(&[0u8; 31]).is_none());
    assert!(Keypair::from_secret(&[0u8; 33]).is_none());
    let a = Keypair::from_secret(&[1u8; 32]).unwrap();
    let b = Keypair::from_secret(&[2u8; 32]).unwrap();
    assert_eq!(a.public().len(), 32);
    assert_ne!(a.public(), b.public());
    assert_ne!(a.public().as_slice(), &[1u8; 32]);
    assert_ne!(a.sign(b"m"), a.sign(b"n"));
}

#[test]
fn provenance_follows_the_precedence_of_the_environment() {
    let actor = Actor { id: "did:test:actor".to_string() };
    let mut env = StringMap::new();
    for (k, v) in [
        ("buildkite_pipeline", "bk"),
        ("gitlab_project", "gl"),
        ("circle_sha", "c-sha"),
        ("gitlab_sha", "g-sha"),
        ("git_ref", "main"),
        ("ci_name", "named"),
        ("ci_url", "https://ci/1"),
        ("runner", "r1"),
    ] {
        env.insert(k.to_string(), v.to_string());
    }
    let p = build_provenance("out/a.bin", "beef", &actor, &env, "2025-01-01T00:00:00.000Z".to_string());
    assert_eq!(p.artifact, "out/a.bin");
    assert_eq!(p.artifact_hash, "beef");
    assert_eq!(p.actor.id, "did:test:actor");
    assert_eq!(p.build.repo, Some("gl".to_string()));
    assert_eq!(p.build.commit, Some("g-sha".to_string()));
    assert_eq!(p.build.git_ref, Some("main".to_string()));
    assert_eq!(p.ci.name, Some("named".to_string()));
    assert_eq!(p.ci.url, Some("https://ci/1".to_string()));
    assert_eq!(p.ci.runner, Some("r1".to_string()));
    assert_eq!(p.ts.built, "2025-01-01T00:00:00.000Z");

    env.insert("github_repository".to_string(), "gh".to_string());
    env.insert("git_commit".to_string(), "mine".to_string());
    env.insert("ci".to_string(), "github_actions".to_string());
    let p = build_provenance("a", "b", &actor, &env, "t".to_string());
    assert_eq!(p.build.repo, Some("gh".to_string()));
    assert_eq!(p.build.commit, Some("mine".to_string()));
    assert_eq!(p.ci.name, Some("github_actions".to_string()));

    let bare = build_provenance("a", "b", &actor, &StringMap::new(), "t".to_string());
    assert_eq!(
        (bare.build.repo, bare.build.commit, bare.build.git_ref),
        (None, None, None)
    );
    assert_eq!(
        canonical_json_bytes(&bare.ci.to_json()),
        br#"{"name":null,"runner":null,"url":null}"#.to_vec()
    );

    let swapped = Value::Object(vec![
        ("b".to_string(), Value::Null),
        ("a".to_string(), Value::Null),
    ]);
    let straight = Value::Object(vec![
        ("a".to_string(), Value::Null),
        ("b".to_string(), Value::Null),
    ]);
    assert_eq!(canonical_json_bytes(&swapped), canonical_json_bytes(&straight));
    assert_eq!(canonical_json_bytes(&swapped), br#"{"a":null,"b":null}"#.to_vec());

    let r = build_receipt(
        "did:test:me".to_string(),
        env,
        "t".to_string(),
        Subject { kind: "k".to_string(), digest: "d".to_string(), meta: None },
    );
    assert_eq!(r.actor.id, "did:test:me");
    assert_eq!(r.env.get("ci").cloned(), Some("github_actions".to_string()));
    assert!(r.sign.is_none() && r.provenance.is_none() && r.provenance_ref.is_none());
}

#[test]
fn the_order_in_which_the_environment_was_filled_does_not_show() {
    let mut one = receipt();
    one.env = StringMap::new();
    one.env.insert("b".to_string(), "2".to_string());
    one.env.insert("a".to_string(), "1".to_string());
    let mut other = receipt();
    other.env = StringMap::new();
    other.env.insert("a".to_string(), "1".to_string());
    other.env.insert("b".to_string(), "2".to_string());
    assert_eq!(to_text(&one.to_json()), to_text(&other.to_json()));
    assert_eq!(
        canonical_json_bytes(&one.to_json()),
        canonical_json_bytes(&other.to_json())
    );
    assert_eq!(signing_digest(&one), signing_digest(&other));
    let signed = sign_receipt(one, &keys());
    other.sign = Some(Sign {
        pub_: signed.sign.as_ref().unwrap().pub_.clone(),
        signature: signed.sign.as_ref().unwrap().signature.clone(),
        alg: Some("ed25519".to_string()),
    });
    assert_eq!(verify_receipt(&other), Ok(()));
}
