use entity_crud::hashing::{bytes_to_hex, gen_user_id, hash_ssn, identity_hash};

#[test]
fn hash_of_known_input_matches_sha256() {
    // SHA-256 of "abc", rendered as lowercase hex.
    assert_eq!(
        hash_ssn("abc", ""),
        "ba7816bf8f01cfea414140de5dae2223b00361a396177a9cb410ff61f20015ad"
    );
}

#[test]
fn hash_concatenates_input_and_salt() {
    // The salted hash of "a" with salt "b" is the hash of "ab" with no salt.
    assert_eq!(identity_hash("a", "b"), identity_hash("ab", ""));
    assert_eq!(
        identity_hash("a", "b"),
        "fb8e20fc2e4c3f248c60c39bd652f3c1347298bb977b8b4d5903b85055620603"
    );
}

#[test]
fn hash_of_empty_input_and_salt() {
    // SHA-256 of the empty string: the id a user GET derives when the query
    // parameter is absent and no salt is configured.
    assert_eq!(
        gen_user_id("", ""),
        "e3b0c44298fc1c149afbf4c8996fb92427ae41e4649b934ca495991b7852b855"
    );
}

#[test]
fn hash_is_deterministic_across_calls() {
    let a = hash_ssn("123-45-6789", "pepper");
    let b = hash_ssn("123-45-6789", "pepper");
    assert_eq!(a, b);
    let c = gen_user_id("123-45-6789", "pepper");
    assert_eq!(a, c);
}

#[test]
fn different_salt_changes_the_hash() {
    assert_ne!(hash_ssn("123-45-6789", "s1"), hash_ssn("123-45-6789", "s2"));
}

#[test]
fn hex_rendering_is_two_lowercase_digits_per_byte() {
    assert_eq!(bytes_to_hex(&vec![]), "");
    assert_eq!(bytes_to_hex(&vec![0x00, 0x0f, 0xa5, 0xff]), "000fa5ff");
}
