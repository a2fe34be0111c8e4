//! Credential generation, encoding, decoding and comparison.

use euclidon::auth::hash::{Algorithm, Hasher};
use euclidon::auth::{Password, PasswordError, PasswordV1};

fn small_hasher() -> Hasher {
    Hasher::new_pbkdf2(Algorithm::HmacSha3_512, 2, 8)
}

#[test]
fn password_test() {
    let password = Password::generate_current("hello", None, None).unwrap();

    let encoded = password.encode_string();
    println!("{encoded}");

    let decoded = Password::from_encoded(encoded.as_bytes()).unwrap();
    println!("{}", decoded.encode_string());
}

#[test]
fn round_trip_explicit_salt() {
    let salt: Vec<u8> = vec![1, 2, 3, 4, 5, 6, 7, 8, 9, 10, 11, 12, 13, 14, 15, 16];
    let generated =
        Password::generate_current("secret", Some(salt.clone()), Some(small_hasher())).unwrap();
    let encoded = generated.encode();
    let decoded = Password::from_encoded(&encoded).unwrap();

    let Password::V1(before) = &generated else {
        panic!("generation must yield a version-1 credential");
    };
    let Password::V1(after) = &decoded else {
        panic!("decoding must yield a version-1 credential");
    };
    assert_eq!(before.hasher, after.hasher);
    assert_eq!(before.salt, after.salt);
    assert_eq!(before.hash, after.hash);
    assert_eq!(after.salt, salt);

    assert_eq!(decoded.encode(), encoded);
}

#[test]
fn verification_correctness() {
    let password = Password::generate_current("hello", None, Some(small_hasher())).unwrap();
    assert_eq!(password.compare("hello").unwrap(), true);
    assert_eq!(password.compare("Hello").unwrap(), false);
    assert_eq!(password.compare("hello ").unwrap(), false);
    assert_eq!(password.compare("").unwrap(), false);
}

#[test]
fn sentinel_never_matches() {
    assert_eq!(Password::Invalid.compare("anything").unwrap(), false);
    assert_eq!(Password::Invalid.compare("").unwrap(), false);
    assert!(!Password::Invalid.is_valid());
}

#[test]
fn malformed_inputs_are_rejected() {
    assert_eq!(Password::from_encoded(b":1:pbkdf2:unknown-algo:10:8:AA:AA").unwrap_err(), PasswordError::HasherComp);
    assert_eq!(Password::from_encoded(b":7:pbkdf2:hmac-sha3-512:10:8:AA==:AA==").unwrap_err(), PasswordError::VariantComp);
    assert_eq!(Password::from_encoded(b"no-leading-colon").unwrap_err(), PasswordError::Invalid);
}

#[test]
fn decode_error_names_the_failing_field() {
    // Version field.
    assert_eq!(Password::from_encoded(b"").unwrap_err(), PasswordError::Invalid);
    assert_eq!(Password::from_encoded(b":").unwrap_err(), PasswordError::VariantComp);
    assert_eq!(Password::from_encoded(b":2").unwrap_err(), PasswordError::VariantComp);
    // Bytes that are not text.
    assert_eq!(Password::from_encoded(&[58, 255, 254]).unwrap_err(), PasswordError::Invalid);
    // Hasher descriptor: family, algorithm, rounds, length.
    assert_eq!(Password::from_encoded(b":1").unwrap_err(), PasswordError::HasherComp);
    assert_eq!(Password::from_encoded(b":1:scrypt:x:1:8:AA==:AA==").unwrap_err(), PasswordError::HasherComp);
    assert_eq!(Password::from_encoded(b":1:pbkdf2").unwrap_err(), PasswordError::HasherComp);
    assert_eq!(Password::from_encoded(b":1:pbkdf2:hmac-sha3-512").unwrap_err(), PasswordError::HasherComp);
    assert_eq!(Password::from_encoded(b":1:pbkdf2:hmac-sha3-512:abc:8:AA==:AA==").unwrap_err(), PasswordError::HasherComp);
    assert_eq!(Password::from_encoded(b":1:pbkdf2:hmac-sha3-512:-1:8:AA==:AA==").unwrap_err(), PasswordError::HasherComp);
    // Rounds above u32::MAX, and above u64::MAX.
    assert_eq!(Password::from_encoded(b":1:pbkdf2:hmac-sha3-512:5000000000:8:AA==:AA==").unwrap_err(), PasswordError::HasherComp);
    assert_eq!(Password::from_encoded(b":1:pbkdf2:hmac-sha3-512:99999999999999999999:8:AA==:AA==").unwrap_err(), PasswordError::HasherComp);
    assert_eq!(Password::from_encoded(b":1:pbkdf2:hmac-sha3-512:10").unwrap_err(), PasswordError::HasherComp);
    // Salt field.
    assert_eq!(Password::from_encoded(b":1:pbkdf2:hmac-sha3-512:10:8").unwrap_err(), PasswordError::SaltComp);
    assert_eq!(Password::from_encoded(b":1:pbkdf2:hmac-sha3-512:10:8:!!!!:AA==").unwrap_err(), PasswordError::SaltComp);
    // Hash field.
    assert_eq!(Password::from_encoded(b":1:pbkdf2:hmac-sha3-512:10:8:AA==").unwrap_err(), PasswordError::HashComp);
    assert_eq!(Password::from_encoded(b":1:pbkdf2:hmac-sha3-512:10:8:AA==:!!!!").unwrap_err(), PasswordError::HashComp);
}

#[test]
fn sentinel_and_trailing_fields_decode() {
    assert!(matches!(Password::from_encoded(b":invalid"), Ok(Password::Invalid)));
    // Fields past the last one a version reads are ignored.
    assert!(matches!(Password::from_encoded(b":invalid:junk"), Ok(Password::Invalid)));
    let with_extra = Password::from_encoded(b":1:pbkdf2:hmac-sha3-512:2:4:AAAA:AAAA:junk").unwrap();
    let Password::V1(v) = with_extra else {
        panic!("a well-formed prefix must decode");
    };
    assert_eq!(v.salt, vec![0, 0, 0]);
    assert_eq!(v.hash, vec![0, 0, 0]);
}

#[test]
fn sentinel_encodes_as_invalid() {
    assert_eq!(Password::Invalid.encode_string(), ":invalid");
    assert_eq!(Password::Invalid.encode(), b":invalid".to_vec());
}

#[test]
fn end_to_end_signup_login() {
    let password = Password::generate_current("hello", None, None).unwrap();
    let encoded = password.encode_string();
    assert!(encoded.starts_with(":1:pbkdf2:hmac-sha3-512:10000:64:"));

    let stored = Password::from_encoded(encoded.as_bytes()).unwrap();
    assert_eq!(stored.compare("hello").unwrap(), true);
    assert_eq!(stored.compare("Hello").unwrap(), false);
}

#[test]
fn default_salt_is_fresh_16_bytes() {
    let a = Password::generate_current("pw", None, Some(small_hasher())).unwrap();
    let b = Password::generate_current("pw", None, Some(small_hasher())).unwrap();
    let (Password::V1(a), Password::V1(b)) = (&a, &b) else {
        panic!("generation must yield version-1 credentials");
    };
    assert_eq!(a.salt.len(), 16);
    assert_eq!(b.salt.len(), 16);
    assert_ne!(a.salt, b.salt);
    // Different salts give different derivations of the same password.
    assert_ne!(a.hash, b.hash);
}

#[test]
fn derivation_depends_on_all_inputs() {
    let salt_a: Vec<u8> = vec![0; 16];
    let salt_b: Vec<u8> = vec![1; 16];
    let a = Password::generate_current("pw", Some(salt_a.clone()), Some(small_hasher())).unwrap();
    let b = Password::generate_current("pw", Some(salt_b), Some(small_hasher())).unwrap();
    let c = Password::generate_current("pw", Some(salt_a.clone()), Some(small_hasher())).unwrap();
    let (Password::V1(a), Password::V1(b), Password::V1(c)) = (&a, &b, &c) else {
        panic!("generation must yield version-1 credentials");
    };
    assert_ne!(a.hash, b.hash);
    assert_eq!(a.hash, c.hash);
    assert_eq!(a.hash.len(), 8);
    assert_ne!(a.hash.as_slice(), b"pw");
    // The default hasher derives 64 bytes.
    let d = Password::generate_current("pw", Some(salt_a), None).unwrap();
    let Password::V1(d) = &d else {
        panic!("generation must yield a version-1 credential");
    };
    assert_eq!(d.hash.len(), 64);
}

#[test]
fn encoded_salt_is_base64url() {
    let salt: Vec<u8> = vec![0, 0, 0];
    let p = Password::generate_current("pw", Some(salt), Some(Hasher::new_pbkdf2(Algorithm::HmacSha3_512, 2, 8))).unwrap();
    let encoded = p.encode_string();
    let fields: Vec<&str> = encoded.split(':').collect();
    assert_eq!(fields[0], "");
    assert_eq!(fields[1], "1");
    assert_eq!(fields[2], "pbkdf2");
    assert_eq!(fields[3], "hmac-sha3-512");
    assert_eq!(fields[4], "2");
    assert_eq!(fields[5], "8");
    assert_eq!(fields[6], "AAAA");
    let Password::V1(v) = &p else {
        panic!("generation must yield a version-1 credential");
    };
    let expected_hash = base64::Engine::encode(&base64::prelude::BASE64_URL_SAFE, &v.hash);
    assert_eq!(fields[7], expected_hash);
}

#[test]
fn from_stored_collapses_errors_to_sentinel() {
    assert!(matches!(Password::from_stored(b"garbage"), Password::Invalid));
    assert!(matches!(Password::from_stored(b":1:pbkdf2:zzz:1:1:AA:AA"), Password::Invalid));
    let good = Password::generate_current("pw", None, Some(small_hasher())).unwrap();
    let restored = Password::from_stored(&good.encode());
    assert_eq!(restored.compare("pw").unwrap(), true);
}

#[test]
fn from_plaintext_yields_working_credential() {
    let p = Password::from_plaintext("hunter2");
    assert!(p.is_valid());
    assert_eq!(p.compare("hunter2").unwrap(), true);
    assert_eq!(p.compare("hunter3").unwrap(), false);
}

#[test]
fn default_credential_is_sentinel() {
    let p: Password = Default::default();
    assert!(!p.is_valid());
    assert_eq!(p.compare("anything").unwrap(), false);
}

#[test]
fn algorithm_names_round_trip() {
    let a = Algorithm::HmacSha3_512;
    assert_eq!(a.name(), "hmac-sha3-512");
    assert_eq!(Algorithm::from_name(a.name()), Some(a));
    assert_eq!(Algorithm::from_name("hmac-sha3-51"), None);
    assert_eq!(Algorithm::from_name("hmac-sha3-5122"), None);
    assert_eq!(Algorithm::from_name("HMAC-SHA3-512"), None);
    assert_eq!(Algorithm::from_name(""), None);
}

#[test]
fn hasher_reports_configured_output_length() {
    let h = Hasher::new_pbkdf2(Algorithm::HmacSha3_512, 3, 17);
    let out = h.hash(b"pw", b"salt").unwrap();
    assert_eq!(out.len(), 17);
    let again = h.hash(b"pw", b"salt").unwrap();
    assert_eq!(out, again);
    let other = h.hash(b"pw", b"pepper").unwrap();
    assert_ne!(out, other);
}

#[test]
fn rebuilt_credential_compares_like_the_generated_one() {
    // A credential reassembled from decoded parts verifies the same
    // password: the stored parameters are all the comparison needs.
    let p = Password::generate_current("pw", None, None).unwrap();
    let encoded = p.encode();
    let Password::V1(v) = Password::from_encoded(&encoded).unwrap() else {
        panic!("decoding must yield a version-1 credential");
    };
    let rebuilt = Password::V1(PasswordV1 { hasher: v.hasher, salt: v.salt, hash: v.hash });
    assert_eq!(rebuilt.compare("pw").unwrap(), true);
    assert_eq!(rebuilt.compare("qw").unwrap(), false);
}
