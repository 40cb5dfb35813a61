use umbra::crypto::decrypt_reverse;
use umbra::crypto::encrypt_reverse;
use umbra::crypto::hash_string;
use umbra::crypto::hash_to_string;
use umbra::utils::generate_random_string;

#[test]
fn test_encrypt_reverse_reverses() {
    assert_eq!(encrypt_reverse(vec![1, 2, 3, 4]), vec![4, 3, 2, 1]);
    assert_eq!(encrypt_reverse(vec![]), Vec::<u8>::new());
}

#[test]
fn test_decrypt_undoes_encrypt() {
    let plain = vec![10, 20, 30, 40, 50];
    assert_eq!(decrypt_reverse(encrypt_reverse(plain.clone())), plain);
}

#[test]
fn test_hash_to_string_known_digest() {
    assert_eq!(
        hash_to_string(&[]),
        "a7ffc6f8bf1ed76651c14756a061d662f580ff4de43b49fa82d80a4b80f8434a"
    );
    assert_eq!(
        hash_to_string(b"abc"),
        "3a985da74fe225b2045c172d6bd390bd855f086e3e9d525b46bfe24511431532"
    );
}

#[test]
fn test_hash_string_hashes_utf8_bytes() {
    assert_eq!(hash_string("abc"), hash_to_string(b"abc"));
    assert_eq!(
        hash_string(""),
        "a7ffc6f8bf1ed76651c14756a061d662f580ff4de43b49fa82d80a4b80f8434a"
    );
}

#[test]
fn test_generate_random_string_shape() {
    let s = generate_random_string(16);
    assert_eq!(s.chars().count(), 16);
    assert!(s.chars().all(|c| c.is_ascii_alphanumeric()));
    let t = generate_random_string(0);
    assert_eq!(t.len(), 0);
}
