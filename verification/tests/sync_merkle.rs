use vaultmesh::sync::merkle_root;

#[test]
fn merkle_root_is_stable_and_order_independent() {
    let mut a = vec![
        "b3f1".to_string(),
        "00aa".to_string(),
        "ffff".to_string(),
        "0102".to_string(),
    ];
    let mut b = a.clone();
    a.sort();
    b.reverse();
    let mut b_sorted = b.clone();
    b_sorted.sort();

    let r1 = merkle_root(&a);
    let r2 = merkle_root(&b_sorted);
    assert_eq!(r1, r2);
    assert!(!r1.is_empty());
}

#[test]
fn merkle_root_is_the_digest_of_the_joined_texts() {
    let digests = vec!["00aa".to_string(), "b3f1".to_string()];
    let expected = hex::encode(blake3::hash(b"00aab3f1").as_bytes());
    assert_eq!(merkle_root(&digests), expected);
    let swapped = vec!["b3f1".to_string(), "00aa".to_string()];
    assert_ne!(merkle_root(&swapped), expected);
}

#[test]
fn merkle_root_of_nothing_is_the_digest_of_nothing() {
    assert_eq!(
        merkle_root(&[]),
        "af1349b9f5f9a1a6a0404dea36dcc9499bcb25c9adc112b7cc9a93cae41f3262"
    );
}
