use base64::Engine;
use talos::auth::{
    bearer_token, create_token, hash_password, subject_of, verify_password, AuthUser, UNAUTHORIZED,
};

#[test]
fn hashing_then_verifying_the_same_password_succeeds() {
    let hash = hash_password("correct horse battery staple").unwrap();
    assert!(verify_password("correct horse battery staple", &hash).unwrap());
    assert!(!verify_password("wrong password", &hash).unwrap());
}

#[test]
fn verifying_against_a_non_phc_string_errors() {
    assert!(verify_password("whatever", "not a phc string").is_err());
}

#[test]
fn subjects_round_trip() {
    for id in [0i64, 7, -7, 123456789, i64::MAX, i64::MIN] {
        let subject = subject_of(id);
        assert_eq!(subject, id.to_string());
        assert_eq!(AuthUser::from_subject(&subject).unwrap().user_id, id);
    }
    assert!(AuthUser::from_subject("abc").is_none());
    assert!(AuthUser::from_subject("").is_none());
    assert!(AuthUser::from_subject("-").is_none());
    assert!(AuthUser::from_subject("9223372036854775808").is_none());
    assert_eq!(AuthUser::from_subject("+12").unwrap().user_id, 12);
}

#[test]
fn bearer_tokens() {
    assert_eq!(bearer_token("Bearer abc.def"), Some("abc.def"));
    assert_eq!(bearer_token("Bearer "), Some(""));
    assert_eq!(bearer_token("bearer abc"), None);
    assert_eq!(bearer_token("Basic abc"), None);
    assert_eq!(bearer_token("Bear"), None);
}

fn now() -> u64 {
    std::time::SystemTime::now()
        .duration_since(std::time::UNIX_EPOCH)
        .unwrap()
        .as_secs()
}

fn payload_of(token: &str) -> String {
    let part = token.split('.').nth(1).unwrap();
    let bytes = base64::engine::general_purpose::URL_SAFE_NO_PAD
        .decode(part)
        .unwrap();
    String::from_utf8(bytes).unwrap()
}

#[test]
fn tokens_last_one_day() {
    let token = create_token(7, "secret", 1_700_000_000).unwrap();
    assert_eq!(payload_of(&token), r#"{"sub":"7","exp":1700086400}"#);
    let token = create_token(-12, "secret", 0).unwrap();
    assert_eq!(payload_of(&token), r#"{"sub":"-12","exp":86400}"#);
}

#[test]
fn a_fresh_token_names_its_user() {
    let token = create_token(42, "secret", now()).unwrap();
    assert_eq!(AuthUser::from_token(&token, "secret").unwrap().user_id, 42);
    assert_eq!(
        AuthUser::from_token(&token, "other secret").err(),
        Some(UNAUTHORIZED)
    );
    assert_eq!(UNAUTHORIZED, 401);
}

#[test]
fn expired_and_garbage_tokens_are_rejected() {
    let expired = create_token(42, "secret", 1_000_000).unwrap();
    assert_eq!(AuthUser::from_token(&expired, "secret").err(), Some(UNAUTHORIZED));
    assert_eq!(AuthUser::from_token("not.a.token", "secret").err(), Some(UNAUTHORIZED));
    assert_eq!(AuthUser::from_token("", "secret").err(), Some(UNAUTHORIZED));
}

#[test]
fn a_token_whose_subject_is_not_a_user_id_is_rejected() {
    let mut claims = serde_json::Map::new();
    claims.insert("sub".to_string(), serde_json::Value::from("alice"));
    claims.insert("exp".to_string(), serde_json::Value::from(now() + 1000));
    let token = jsonwebtoken::encode(
        &jsonwebtoken::Header::default(),
        &serde_json::Value::Object(claims),
        &jsonwebtoken::EncodingKey::from_secret(b"secret"),
    )
    .unwrap();
    assert_eq!(AuthUser::from_token(&token, "secret").err(), Some(UNAUTHORIZED));
}
