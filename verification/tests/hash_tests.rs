use mediavault::hash::compute_hash;

#[test]
fn hash_is_deterministic() {
    let content: Vec<u8> = b"some file content".to_vec();
    let first = compute_hash(&content);
    let second = compute_hash(&content);
    assert_eq!(first, second);
}

#[test]
fn hash_differs_for_different_content() {
    let a = compute_hash(&b"content a".to_vec());
    let b = compute_hash(&b"content b".to_vec());
    assert_ne!(a, b);
}

#[test]
fn hash_of_empty_content() {
    assert_eq!(compute_hash(&Vec::new()), "d41d8cd98f00b204e9800998ecf8427e");
}

#[test]
fn hash_known_value() {
    assert_eq!(compute_hash(&b"abc".to_vec()), "900150983cd24fb0d6963f7d28e17f72");
}

#[test]
fn hash_is_32_lowercase_hex_digits() {
    let digest = compute_hash(&b"anything".to_vec());
    assert_eq!(digest.len(), 32);
    assert!(digest.chars().all(|c| c.is_ascii_hexdigit() && !c.is_ascii_uppercase()));
}
