use vaultmesh::crypto::Keypair;
use vaultmesh::identity::{
    actor_key_path, compose_did_web, decode_jwt_segment, did_from_key_file, did_key_from_public,
    did_web_from_oidc, generate_actor_key, jwt_payload_segment, key_file_from_raw,
    keypair_from_key_file, non_empty_trimmed, percent_encode_segment, resolve_actor_did,
    ActorKeyFile, IdentityError,
};
use vaultmesh::strmap::StringMap;

fn b64(data: &[u8]) -> String {
    base64::Engine::encode(&base64::engine::general_purpose::STANDARD, data)
}

fn b64url(data: &[u8]) -> String {
    base64::Engine::encode(&base64::engine::general_purpose::URL_SAFE_NO_PAD, data)
}

#[test]
fn test_did_key_generation() {
    let mut seed = [0u8; 32];
    seed[0] = 1;
    let pair = Keypair::from_secret(&seed).unwrap();
    let did = did_key_from_public(pair.public());
    assert!(did.starts_with("did:key:z"));
}

#[test]
fn did_key_is_the_base58_of_prefix_and_key() {
    let key = [7u8; 32];
    let mut data = vec![0xed, 0x01];
    data.extend_from_slice(&key);
    let expected = format!("did:key:z{}", bs58::encode(data).into_string());
    assert_eq!(did_key_from_public(&key), expected);
    assert_ne!(did_key_from_public(&key), format!("did:key:z{}", hex::encode(key)));
}

#[test]
fn test_non_empty_trimmed() {
    assert_eq!(non_empty_trimmed(" test "), Some("test".into()));
    assert_eq!(non_empty_trimmed(""), None);
}

#[test]
fn non_empty_trimmed_knows_unicode_white_space() {
    assert_eq!(non_empty_trimmed("\u{2003}a b\u{a0}\n"), Some("a b".into()));
    assert_eq!(non_empty_trimmed("\t \u{3000}"), None);
}

#[test]
fn test_compose_did_web() {
    assert_eq!(compose_did_web("example.com", &[]), "did:web:example.com");
    assert_eq!(
        compose_did_web("example.com", &["users", "Alice%2FOrg"]),
        "did:web:example.com:users:Alice%2FOrg"
    );
}

#[test]
fn did_web_users_sub_encoding_matrix() {
    let cases = [
        ("Alice Bob", "Alice%20Bob"),
        ("alice/bob", "alice%2Fbob"),
        ("ALICE@ORG", "ALICE%40ORG"),
        ("team:blue", "team%3Ablue"),
    ];
    for (sub, expected) in cases {
        let encoded = percent_encode_segment(sub);
        assert_eq!(encoded, expected);
        let did = compose_did_web("example.com", &["users", &encoded]);
        assert_eq!(did, format!("did:web:example.com:users:{encoded}"));
    }
}

#[test]
fn percent_encoding_escapes_controls_and_bytes_beyond_ascii() {
    assert_eq!(percent_encode_segment("a\u{7f}\né-._"), "a%7F%0A%C3%A9-._");
    assert_eq!(percent_encode_segment("~{}|`^[]\\"), "%7E%7B%7D%7C%60%5E%5B%5D%5C");
    assert_eq!(percent_encode_segment(""), "");
}

#[test]
fn jwt_payload_is_the_second_segment() {
    assert_eq!(jwt_payload_segment("a.b.c"), Some("b".to_string()));
    assert_eq!(jwt_payload_segment("a.b"), Some("b".to_string()));
    assert_eq!(jwt_payload_segment("a."), Some("".to_string()));
    assert_eq!(jwt_payload_segment("abc"), None);
}

#[test]
fn jwt_segment_is_decoded_with_or_without_padding() {
    assert_eq!(decode_jwt_segment("aGk"), Some(b"hi".to_vec()));
    assert_eq!(decode_jwt_segment("aGk="), Some(b"hi".to_vec()));
    assert_eq!(decode_jwt_segment("_-8"), Some(vec![0xff, 0xef]));
    assert_eq!(decode_jwt_segment("a+b"), None);
}

#[test]
fn did_web_from_an_oidc_token() {
    let payload = b64url(br#"{"iss":"x","sub":" alice/bob "}"#);
    let jwt = format!("e30.{payload}.sig");
    assert_eq!(
        did_web_from_oidc(Some(" example.com "), Some(&jwt)),
        Some("did:web:example.com:users:alice%2Fbob".to_string())
    );
    assert_eq!(did_web_from_oidc(None, Some(&jwt)), None);
    assert_eq!(did_web_from_oidc(Some("  "), Some(&jwt)), None);
    assert_eq!(did_web_from_oidc(Some("example.com"), None), None);
    assert_eq!(did_web_from_oidc(Some("example.com"), Some("nodots")), None);
    assert_eq!(did_web_from_oidc(Some("example.com"), Some("a.!!!.c")), None);
    let no_sub = format!("e30.{}.sig", b64url(br#"{"sub":7}"#));
    assert_eq!(did_web_from_oidc(Some("example.com"), Some(&no_sub)), None);
    let blank = format!("e30.{}.sig", b64url(br#"{"sub":"  "}"#));
    assert_eq!(did_web_from_oidc(Some("example.com"), Some(&blank)), None);
}

#[test]
fn the_environment_names_the_actor_first() {
    let mut vars = StringMap::new();
    assert_eq!(resolve_actor_did(&vars), None);
    let payload = b64url(br#"{"sub":"bob"}"#);
    vars.insert("VM_DID_WEB_DOMAIN".to_string(), "d.example".to_string());
    vars.insert("VM_OIDC_JWT".to_string(), format!("h.{payload}.s"));
    assert_eq!(
        resolve_actor_did(&vars),
        Some("did:web:d.example:users:bob".to_string())
    );
    vars.insert("VM_ACTOR_DID".to_string(), " did:example:me ".to_string());
    assert_eq!(resolve_actor_did(&vars), Some("did:example:me".to_string()));
}

#[test]
fn key_file_gives_the_key_pair_and_the_identifier() {
    let seed = [9u8; 32];
    let file = ActorKeyFile { alg: "ED25519".to_string(), secret: b64(&seed), did: None };
    let pair = keypair_from_key_file(&file).unwrap();
    let expected = Keypair::from_secret(&seed).unwrap();
    assert_eq!(pair.public(), expected.public());
    assert_eq!(
        did_from_key_file(&file),
        Ok(did_key_from_public(expected.public()))
    );
    let named = ActorKeyFile { alg: "ed25519".to_string(), secret: b64(&seed), did: Some("did:x:y".to_string()) };
    assert_eq!(did_from_key_file(&named), Ok("did:x:y".to_string()));
    let blank = ActorKeyFile { alg: "ed25519".to_string(), secret: b64(&seed), did: Some("  ".to_string()) };
    assert_eq!(
        did_from_key_file(&blank),
        Ok(did_key_from_public(expected.public()))
    );
}

#[test]
fn key_file_errors_are_told_apart() {
    let seed = [9u8; 32];
    let other = ActorKeyFile { alg: "rsa".to_string(), secret: b64(&seed), did: None };
    assert_eq!(did_from_key_file(&other), Err(IdentityError::UnsupportedAlgorithm));
    let garbled = ActorKeyFile { alg: "ed25519".to_string(), secret: "***".to_string(), did: None };
    assert_eq!(did_from_key_file(&garbled), Err(IdentityError::BadKeyEncoding));
    let short = ActorKeyFile { alg: "ed25519".to_string(), secret: b64(&[1u8; 31]), did: None };
    assert_eq!(did_from_key_file(&short), Err(IdentityError::BadSecret));
    assert!(keypair_from_key_file(&short).is_err());
    assert_eq!(
        IdentityError::NoHomeDirectory.to_string(),
        "unable to determine home directory"
    );
}

#[test]
fn raw_key_file_is_a_bare_secret() {
    let seed = [3u8; 32];
    let file = key_file_from_raw(&format!("  {}\n", b64(&seed)));
    assert_eq!(file.alg, "ed25519");
    assert_eq!(file.secret, b64(&seed));
    assert_eq!(file.did, None);
    assert!(keypair_from_key_file(&file).is_ok());
}

#[test]
fn new_key_file_names_its_own_identifier() {
    let seed = [5u8; 32];
    let file = generate_actor_key(&seed).unwrap();
    assert_eq!(file.alg, "ed25519");
    assert_eq!(file.secret, b64(&seed));
    let pair = Keypair::from_secret(&seed).unwrap();
    assert_eq!(file.did, Some(did_key_from_public(pair.public())));
    assert!(generate_actor_key(&[0u8; 16]).is_none());
    assert_eq!(did_from_key_file(&file), Ok(file.did.clone().unwrap()));
    assert_eq!(keypair_from_key_file(&file).unwrap().public(), pair.public());
}

#[test]
fn key_path_follows_the_configuration() {
    assert_eq!(
        actor_key_path(None, Some("/home/u")),
        Ok("/home/u/.vaultmesh/actor.key".to_string())
    );
    assert_eq!(
        actor_key_path(Some("  "), Some("/home/u/")),
        Ok("/home/u/.vaultmesh/actor.key".to_string())
    );
    assert_eq!(
        actor_key_path(Some("~"), Some("/home/u")),
        Ok("/home/u/.vaultmesh/actor.key".to_string())
    );
    assert_eq!(
        actor_key_path(Some("~/keys/a.key"), Some("/home/u")),
        Ok("/home/u/keys/a.key".to_string())
    );
    assert_eq!(
        actor_key_path(Some(" /etc/a.key "), None),
        Ok("/etc/a.key".to_string())
    );
    assert_eq!(actor_key_path(None, None), Err(IdentityError::NoHomeDirectory));
    assert_eq!(actor_key_path(Some("~"), None), Err(IdentityError::NoHomeDirectory));
    assert_eq!(actor_key_path(Some("~/x"), None), Err(IdentityError::NoHomeDirectory));
}
