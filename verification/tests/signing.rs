use hyper_uppercut::nostr::{canonical_preimage, Event, IdentityKey};
use sha2::Digest;

fn test_key_bytes() -> Vec<u8> {
    vec![1u8; 32]
}

fn test_key() -> IdentityKey {
    IdentityKey::from_bytes(test_key_bytes()).expect("a valid key")
}

fn test_tags() -> Vec<Vec<String>> {
    vec![
        vec!["e".to_string(), "1".to_string()],
        vec!["p".to_string(), "2".to_string()],
    ]
}

#[test]
fn rejects_all_zero_key() {
    assert!(IdentityKey::from_bytes(vec![0u8; 32]).is_err());
}

#[test]
fn rejects_short_key() {
    assert!(IdentityKey::from_bytes(vec![1u8; 31]).is_err());
}

#[test]
fn rejects_key_above_curve_order() {
    assert!(IdentityKey::from_bytes(vec![0xffu8; 32]).is_err());
}

#[test]
fn accepts_well_formed_key() {
    assert!(IdentityKey::from_bytes(test_key_bytes()).is_ok());
}

#[test]
fn preimage_is_exact_without_whitespace() {
    let pubkey: String = "ab".repeat(32);
    let preimage = canonical_preimage(&pubkey, 1700000000, 1, &vec![], "hello");
    let expected = format!("[0,\"{}\",1700000000,1,[],\"hello\"]", pubkey);
    assert_eq!(preimage, expected);
}

#[test]
fn preimage_keeps_tag_order_verbatim() {
    let pubkey: String = "cd".repeat(32);
    let preimage = canonical_preimage(&pubkey, 42, 1, &test_tags(), "x");
    let expected = format!("[0,\"{}\",42,1,[[\"e\",\"1\"],[\"p\",\"2\"]],\"x\"]", pubkey);
    assert_eq!(preimage, expected);
}

#[test]
fn preimage_matches_reference_json_encoder() {
    // The canonical preimage must be byte-for-byte what a conformant JSON
    // encoder produces for the same array, escapes included.
    let pubkey: String = "12".repeat(32);
    let content = "a\"b\\c\nd\u{1}e\ttail é 日本語";
    let tags = vec![vec!["weird\"tag".to_string(), "line\nbreak".to_string()]];
    let preimage = canonical_preimage(&pubkey, 1700000000, 1, &tags, content);

    let value = serde_json::Value::Array(vec![
        serde_json::Value::from(0u64),
        serde_json::Value::from(pubkey.clone()),
        serde_json::Value::from(1700000000u64),
        serde_json::Value::from(1u64),
        serde_json::Value::Array(vec![serde_json::Value::Array(vec![
            serde_json::Value::from("weird\"tag"),
            serde_json::Value::from("line\nbreak"),
        ])]),
        serde_json::Value::from(content),
    ]);
    assert_eq!(preimage, serde_json::to_string(&value).unwrap());
}

#[test]
fn id_is_sha256_of_preimage() {
    let event = Event::new_at(&test_key(), "hello".to_string(), 1, test_tags(), 1700000000);
    let preimage = canonical_preimage(
        &event.pubkey,
        event.created_at,
        event.kind,
        &event.tags,
        &event.content,
    );
    let digest = sha2::Sha256::digest(preimage.as_bytes());
    assert_eq!(event.id, hex::encode(digest));
    assert_eq!(event.calculate_id(), event.id);
}

#[test]
fn event_fields_are_kept_verbatim() {
    let event = Event::new_at(&test_key(), "hello".to_string(), 1, test_tags(), 1700000000);
    assert_eq!(event.content, "hello");
    assert_eq!(event.kind, 1);
    assert_eq!(event.created_at, 1700000000);
    assert_eq!(event.tags, test_tags());
}

#[test]
fn pubkey_matches_reference_derivation() {
    let event = Event::new_at(&test_key(), "hi".to_string(), 1, vec![], 1);
    let sk = secp256k1::SecretKey::from_secret_bytes([1u8; 32]).unwrap();
    let (xonly, _parity) = sk.x_only_public_key();
    assert_eq!(event.pubkey, hex::encode(xonly.to_byte_array()));
}

#[test]
fn signature_verifies_under_pubkey() {
    let event = Event::new_at(&test_key(), "hello".to_string(), 1, test_tags(), 1700000000);
    assert!(event.verify_signature());

    // Cross-check against the reference implementation.
    let pk_bytes: [u8; 32] = hex::decode(&event.pubkey).unwrap().try_into().unwrap();
    let pubkey = secp256k1::XOnlyPublicKey::from_byte_array(pk_bytes).unwrap();
    let sig_bytes: [u8; 64] = hex::decode(&event.sig).unwrap().try_into().unwrap();
    let signature = secp256k1::schnorr::Signature::from_byte_array(sig_bytes);
    let msg = hex::decode(&event.id).unwrap();
    assert!(secp256k1::schnorr::verify(&signature, &msg, &pubkey).is_ok());
}

#[test]
fn tampered_signature_fails_verification() {
    let mut event = Event::new_at(&test_key(), "hello".to_string(), 1, vec![], 1700000000);
    let mut sig = event.sig.into_bytes();
    sig[0] = if sig[0] == b'0' { b'1' } else { b'0' };
    event.sig = String::from_utf8(sig).unwrap();
    assert!(!event.verify_signature());
}

#[test]
fn signing_is_deterministic() {
    let a = Event::new_at(&test_key(), "same".to_string(), 1, test_tags(), 1700000000);
    let b = Event::new_at(&test_key(), "same".to_string(), 1, test_tags(), 1700000000);
    assert_eq!(a.sig, b.sig);
    assert_eq!(a.id, b.id);
}

#[test]
fn tag_order_changes_id() {
    let forward = vec![
        vec!["e".to_string(), "1".to_string()],
        vec!["p".to_string(), "2".to_string()],
    ];
    let backward = vec![
        vec!["p".to_string(), "2".to_string()],
        vec!["e".to_string(), "1".to_string()],
    ];
    let a = Event::new_at(&test_key(), "x".to_string(), 1, forward, 1700000000);
    let b = Event::new_at(&test_key(), "x".to_string(), 1, backward, 1700000000);
    assert_ne!(a.id, b.id);
}

#[test]
fn new_captures_a_timestamp() {
    let event = Event::new(&test_key(), "hi".to_string(), 1, vec![]);
    assert!(event.created_at > 0);
    assert!(event.verify_signature());
    assert_eq!(event.calculate_id(), event.id);
}
