use base64::Engine;
use rsa::pkcs1::EncodeRsaPrivateKey;
use rsa::{Pkcs1v15Encrypt, RsaPrivateKey, RsaPublicKey};

use biscuit::cache::MessageField;
use biscuit::host::{host_base64_decode, host_identify, host_is_known, host_rsa_decrypt, load_env, stringify_value, HostError, KnownQuery, ScriptValue};
use biscuit::matcher::Matcher;

fn field(name: &str, ty: &str, id: u16) -> MessageField {
    MessageField { field_name: name.to_string(), field_type: ty.to_string(), field_id: id }
}

#[test]
fn identify_records_a_guess() {
    let mut matcher = Matcher::new();
    let r = host_identify(
        &mut matcher,
        Some("Login".to_string()),
        Some(42),
        Some(field("token", "bytes", 1)),
    );
    assert_eq!(r, Ok(()));
    assert!(matcher.knowledge().id_known(42));
    assert!(matcher.knowledge().name_known("Login"));
}

#[test]
fn identify_refuses_missing_arguments_in_order() {
    let mut matcher = Matcher::new();
    assert_eq!(host_identify(&mut matcher, None, None, None), Err(HostError::MissingName));
    assert_eq!(
        host_identify(&mut matcher, Some("A".to_string()), None, None),
        Err(HostError::MissingId)
    );
    assert_eq!(
        host_identify(&mut matcher, Some("A".to_string()), Some(1), None),
        Err(HostError::MissingField)
    );
    // Nothing was recorded by the refused calls.
    assert!(!matcher.knowledge().id_known(1));
    assert!(!matcher.knowledge().name_known("A"));
}

#[test]
fn is_known_dispatches_on_the_argument_kind() {
    let mut matcher = Matcher::new();
    matcher.identify("Login".to_string(), 42, field("token", "bytes", 1));

    assert_eq!(host_is_known(&matcher, Some(KnownQuery::Id(42))), Ok(true));
    assert_eq!(host_is_known(&matcher, Some(KnownQuery::Id(99))), Ok(false));
    assert_eq!(host_is_known(&matcher, Some(KnownQuery::Name("Login".to_string()))), Ok(true));
    assert_eq!(host_is_known(&matcher, Some(KnownQuery::Name("Other".to_string()))), Ok(false));
    assert_eq!(host_is_known(&matcher, Some(KnownQuery::Other)), Err(HostError::InvalidType));
    assert_eq!(host_is_known(&matcher, None), Err(HostError::MissingId));
}

#[test]
fn base64_decode_round_trips() {
    let original: Vec<u8> = vec![0x00, 0x1B, 0xFF, 0x42, 0x80, 0x7F];
    let encoded = base64::prelude::BASE64_STANDARD.encode(&original);
    let decoded = host_base64_decode(Some(encoded)).expect("valid base64 must decode");
    assert_eq!(decoded, original);

    assert_eq!(host_base64_decode(Some("Gw==".to_string())), Ok(vec![0x1B]));
}

#[test]
fn base64_decode_refuses_malformed_input() {
    assert_eq!(host_base64_decode(Some("!!!".to_string())), Err(HostError::BadBase64));
    assert_eq!(host_base64_decode(Some("AAA".to_string())), Err(HostError::BadBase64));
    assert_eq!(host_base64_decode(None), Err(HostError::MissingValue));
}

#[test]
fn rsa_decrypt_round_trips_with_the_matching_key() {
    let mut rng = rand::thread_rng();
    let key = RsaPrivateKey::new(&mut rng, 512).expect("key generation");
    let public = RsaPublicKey::from(&key);
    let pem = key.to_pkcs1_pem(rsa::pkcs1::LineEnding::LF).expect("pem").to_string();

    let plaintext = b"attack at dawn";
    let ciphertext = public.encrypt(&mut rng, Pkcs1v15Encrypt, plaintext).expect("encrypt");
    let encoded = base64::prelude::BASE64_STANDARD.encode(&ciphertext);

    let decrypted = host_rsa_decrypt(Some(pem), Some(encoded)).expect("matching key decrypts");
    assert_eq!(decrypted, plaintext);
}

#[test]
fn rsa_decrypt_refuses_a_non_matching_key() {
    let mut rng = rand::thread_rng();
    let key = RsaPrivateKey::new(&mut rng, 512).expect("key generation");
    let public = RsaPublicKey::from(&key);
    let other = RsaPrivateKey::new(&mut rng, 512).expect("key generation");
    let other_pem = other.to_pkcs1_pem(rsa::pkcs1::LineEnding::LF).expect("pem").to_string();

    let ciphertext = public.encrypt(&mut rng, Pkcs1v15Encrypt, b"secret").expect("encrypt");
    let encoded = base64::prelude::BASE64_STANDARD.encode(&ciphertext);

    assert_eq!(host_rsa_decrypt(Some(other_pem), Some(encoded)), Err(HostError::DecryptFailed));
}

#[test]
fn rsa_decrypt_refuses_bad_arguments_in_order() {
    assert_eq!(host_rsa_decrypt(None, None), Err(HostError::MissingKey));
    assert_eq!(
        host_rsa_decrypt(Some("not a pem".to_string()), None),
        Err(HostError::MissingCiphertext)
    );
    assert_eq!(
        host_rsa_decrypt(Some("not a pem".to_string()), Some("Gw==".to_string())),
        Err(HostError::InvalidKey)
    );

    let mut rng = rand::thread_rng();
    let key = RsaPrivateKey::new(&mut rng, 512).expect("key generation");
    let pem = key.to_pkcs1_pem(rsa::pkcs1::LineEnding::LF).expect("pem").to_string();
    assert_eq!(
        host_rsa_decrypt(Some(pem), Some("!!!".to_string())),
        Err(HostError::BadBase64)
    );
}

#[test]
fn stringify_follows_the_fixed_policy() {
    assert_eq!(stringify_value(ScriptValue::Undefined), "undefined");
    assert_eq!(stringify_value(ScriptValue::Null), "null");
    assert_eq!(stringify_value(ScriptValue::Bool(true)), "true");
    assert_eq!(stringify_value(ScriptValue::Bool(false)), "false");
    assert_eq!(stringify_value(ScriptValue::Number("3.14".to_string())), "3.14");
    assert_eq!(stringify_value(ScriptValue::Text("hello".to_string())), "hello");
    assert_eq!(stringify_value(ScriptValue::Symbol(Some("tag".to_string()))), "tag");
    assert_eq!(stringify_value(ScriptValue::Symbol(None)), "undefined");
    assert_eq!(stringify_value(ScriptValue::BigInt("12345678901234567890".to_string())), "12345678901234567890");
    assert_eq!(stringify_value(ScriptValue::Object(Some("[1,2]".to_string()))), "[1,2]");
    assert_eq!(stringify_value(ScriptValue::Object(None)), "undefined");
}

#[test]
fn env_snapshot_levels() {
    // Absent file: empty snapshot, no warning.
    let (pairs, warn) = load_env(None);
    assert!(pairs.is_empty());
    assert!(!warn);

    // Well-formed file: the pairs, verbatim.
    let (pairs, warn) = load_env(Some("USER_ID=alpha\nAPI_TOKEN=beta\n"));
    assert!(!warn);
    assert_eq!(pairs.len(), 2);
    assert!(pairs.iter().any(|(k, v)| k == "USER_ID" && v == "alpha"));
    assert!(pairs.iter().any(|(k, v)| k == "API_TOKEN" && v == "beta"));

    // Malformed file: empty snapshot plus a warning.
    let (pairs, warn) = load_env(Some("THIS IS NOT AN ASSIGNMENT"));
    assert!(pairs.is_empty());
    assert!(warn);
}
