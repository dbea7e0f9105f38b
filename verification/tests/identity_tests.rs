use v2conv::username::{derive_id, generate_username};

#[test]
fn derive_id_is_deterministic() {
    let seed = b"jdoe@mozilla.com".to_vec();
    assert_eq!(derive_id(&seed), derive_id(&seed));
}

#[test]
fn derive_id_distinguishes_seeds() {
    let a = derive_id(&b"jdoe@mozilla.com".to_vec());
    let b = derive_id(&b"jdot@mozilla.com".to_vec());
    assert_ne!(a, b);
    assert_eq!(a.len(), 36);
    assert_eq!(b.len(), 36);
}

#[test]
fn derive_id_matches_name_based_uuid() {
    let seed = b"someone@mozilla.com".to_vec();
    let expected = format!(
        "{}",
        uuid::Uuid::new_v5(&uuid::Uuid::NAMESPACE_URL, seed.as_slice())
    )
    .into_bytes();
    assert_eq!(derive_id(&seed), expected);
}

#[test]
fn generate_username_matches_hash_and_encoding() {
    let value = b"someone@mozilla.com".to_vec();
    let entropy = b"pepper".to_vec();
    let id = uuid::Uuid::new_v5(&uuid::Uuid::NAMESPACE_URL, b"someone@mozilla.com#pepper");
    let encoded = base64::Engine::encode(
        &base64::engine::general_purpose::URL_SAFE,
        id.as_bytes(),
    );
    let expected = format!("r--{}", encoded).into_bytes();
    assert_eq!(generate_username(&value, &entropy), expected);
}

#[test]
fn generate_username_is_deterministic() {
    let value = b"someone@mozilla.com".to_vec();
    let entropy = b"pepper".to_vec();
    assert_eq!(
        generate_username(&value, &entropy),
        generate_username(&value, &entropy)
    );
    assert_ne!(
        generate_username(&value, &entropy),
        generate_username(&value, &b"salt".to_vec())
    );
}
