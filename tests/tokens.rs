use hdt_api::credential::{api_key_hash, parse_credential, AuthStep, Credential, Jwt};
use hdt_api::errors::AuthenticationError;
use hdt_api::models::User;
use hdt_api::token::{token_from_claims, TokenCodec};
use hmac::Mac;
use jwt::{SignWithKey, VerifyWithKey};
use std::collections::BTreeMap;

const T0: i64 = 1_700_000_000;
const DAY: i64 = 86_400;

fn sample_user(admin: bool, display_name: Option<&str>) -> User {
    User {
        id: 0x0123_4567_89ab_cdef_0011_2233_4455_6677,
        email: "alice@example.com".to_string(),
        password: "$2a$04$UuTkLRZZ6QofpDOlMz32MuuxEHA43WOemOYHPz6.SjsVsyO1tDU96".to_string(),
        display_name: display_name.map(|d| d.to_string()),
        admin,
        enabled: true,
        totp_secret: None,
    }
}

fn sign_raw(secret: &str, claims: &BTreeMap<&str, &str>) -> String {
    let key: hmac::Hmac<sha2::Sha256> = hmac::Hmac::new_from_slice(secret.as_bytes()).unwrap();
    claims.sign_with_key(&key).unwrap()
}

#[test]
fn issued_token_verifies_to_same_user() {
    let codec = TokenCodec::new("first secret");
    let user = sample_user(true, Some("Alice"));
    let token = codec.issue_at(&user, T0);
    let t = codec.verify_at(&token, T0).unwrap();
    assert_eq!(t.sub, user.id);
    assert_eq!(t.email, "alice@example.com");
    assert!(t.admin);
    assert_eq!(t.dn, "Alice");
    assert_eq!(t.iss, "hostsdottxt");
    assert_eq!(t.iat, T0);
    assert_eq!(t.exp, T0 + DAY);
}

#[test]
fn display_name_falls_back_to_email() {
    let codec = TokenCodec::new("another secret");
    let user = sample_user(false, None);
    let token = codec.issue_at(&user, T0);
    let t = codec.verify_at(&token, T0 + 10).unwrap();
    assert_eq!(t.dn, "alice@example.com");
    assert!(!t.admin);
}

#[test]
fn issued_claims_are_strings_on_the_wire() {
    let codec = TokenCodec::new("wire secret");
    let user = sample_user(true, None);
    let token = codec.issue_at(&user, T0);
    let key: hmac::Hmac<sha2::Sha256> = hmac::Hmac::new_from_slice(b"wire secret").unwrap();
    let claims: BTreeMap<String, String> = token.as_str().verify_with_key(&key).unwrap();
    assert_eq!(claims["sub"], "01234567-89ab-cdef-0011-223344556677");
    assert_eq!(claims["iat"], "1700000000");
    assert_eq!(claims["exp"], "1700086400");
    assert_eq!(claims["admin"], "true");
    assert_eq!(claims["iss"], "hostsdottxt");
    assert_eq!(claims["email"], "alice@example.com");
    assert_eq!(claims["dn"], "alice@example.com");
}

#[test]
fn issue_and_verify_with_the_clock() {
    let codec = TokenCodec::new("clock secret");
    let user = sample_user(false, Some("Bob"));
    let now = chrono::Utc::now().timestamp();
    let token = codec.issue_at(&user, now);
    let t = codec.verify_at(&token, chrono::Utc::now().timestamp()).unwrap();
    assert_eq!(t.sub, user.id);
    assert_eq!(t.exp - t.iat, DAY);
}

#[test]
fn tampered_signature_is_rejected() {
    let codec = TokenCodec::new("tamper secret");
    let token = codec.issue_at(&sample_user(true, None), T0);
    let mut bytes = token.into_bytes();
    let last = bytes.len() - 1;
    bytes[last] = if bytes[last] == b'A' { b'B' } else { b'A' };
    let tampered = String::from_utf8(bytes).unwrap();
    let r = codec.verify_at(&tampered, T0);
    assert!(matches!(
        r,
        Err(AuthenticationError::InvalidSignature) | Err(AuthenticationError::MalformedClaims)
    ));
}

#[test]
fn tampered_payload_is_rejected() {
    let codec = TokenCodec::new("tamper secret");
    let token = codec.issue_at(&sample_user(false, None), T0);
    let first_dot = token.find('.').unwrap();
    let mut bytes = token.into_bytes();
    let i = first_dot + 5;
    bytes[i] = if bytes[i] == b'x' { b'y' } else { b'x' };
    let tampered = String::from_utf8(bytes).unwrap();
    let r = codec.verify_at(&tampered, T0);
    assert!(matches!(
        r,
        Err(AuthenticationError::InvalidSignature) | Err(AuthenticationError::MalformedClaims)
    ));
}

#[test]
fn other_secret_is_rejected() {
    let token = TokenCodec::new("one").issue_at(&sample_user(false, None), T0);
    let r = TokenCodec::new("two").verify_at(&token, T0);
    assert!(matches!(r, Err(AuthenticationError::InvalidSignature)));
}

#[test]
fn garbage_token_is_rejected() {
    let codec = TokenCodec::new("s");
    assert!(matches!(codec.verify_at("not a token", T0), Err(AuthenticationError::InvalidSignature)));
    assert!(matches!(codec.verify_at("", T0), Err(AuthenticationError::InvalidSignature)));
}

#[test]
fn issued_tokens_are_not_api_keys() {
    let codec = TokenCodec::new("prefix secret");
    let token = codec.issue_at(&sample_user(true, None), T0);
    assert!(!token.starts_with("hdt_"));
    assert!(token.starts_with("eyJ"));
}

#[test]
fn expiry_boundaries_through_the_header() {
    let codec = TokenCodec::new("header boundary secret");
    let token = codec.issue_at(&sample_user(false, None), T0);
    let header = format!("Bearer {}", token);
    assert!(matches!(Jwt::authenticate(&codec, Some(&header), T0 + DAY), AuthStep::Authenticated(_)));
    assert!(matches!(
        Jwt::authenticate(&codec, Some(&header), T0 + DAY + 1),
        AuthStep::Rejected(AuthenticationError::Expired)
    ));
    assert!(matches!(
        Jwt::authenticate(&codec, Some(&header), T0 - 1),
        AuthStep::Rejected(AuthenticationError::NotYetValid)
    ));
}

#[test]
fn expiry_boundaries() {
    let codec = TokenCodec::new("boundary secret");
    let token = codec.issue_at(&sample_user(false, None), T0);
    assert!(codec.verify_at(&token, T0 + DAY).is_ok());
    assert!(matches!(codec.verify_at(&token, T0 + DAY + 1), Err(AuthenticationError::Expired)));
    assert!(codec.verify_at(&token, T0).is_ok());
    assert!(matches!(codec.verify_at(&token, T0 - 1), Err(AuthenticationError::NotYetValid)));
}

#[test]
fn missing_claim_is_malformed() {
    let mut claims = BTreeMap::new();
    claims.insert("iss", "hostsdottxt");
    claims.insert("sub", "01234567-89ab-cdef-0011-223344556677");
    let token = sign_raw("m secret", &claims);
    let r = TokenCodec::new("m secret").verify_at(&token, T0);
    assert!(matches!(r, Err(AuthenticationError::MalformedClaims)));
}

#[test]
fn unparsable_claims_are_malformed() {
    let mut claims = BTreeMap::new();
    claims.insert("iss", "hostsdottxt");
    claims.insert("sub", "01234567-89ab-cdef-0011-223344556677");
    claims.insert("iat", "0");
    claims.insert("exp", "soon");
    claims.insert("dn", "x");
    claims.insert("email", "x@example.com");
    claims.insert("admin", "false");
    let token = sign_raw("m secret", &claims);
    let r = TokenCodec::new("m secret").verify_at(&token, T0);
    assert!(matches!(r, Err(AuthenticationError::MalformedClaims)));

    claims.insert("exp", "+1800000000");
    claims.insert("admin", "yes");
    let token = sign_raw("m secret", &claims);
    let r = TokenCodec::new("m secret").verify_at(&token, T0);
    assert!(matches!(r, Err(AuthenticationError::MalformedClaims)));
}

#[test]
fn hand_signed_claims_verify() {
    let mut claims = BTreeMap::new();
    claims.insert("iss", "elsewhere");
    claims.insert("sub", "01234567-89AB-CDEF-0011-223344556677");
    claims.insert("iat", "-5");
    claims.insert("exp", "+1800000000");
    claims.insert("dn", "Dee");
    claims.insert("email", "dee@example.com");
    claims.insert("admin", "false");
    claims.insert("extra", "ignored");
    let token = sign_raw("h secret", &claims);
    let t = TokenCodec::new("h secret").verify_at(&token, T0).unwrap();
    assert_eq!(t.iss, "elsewhere");
    assert_eq!(t.sub, 0x0123_4567_89ab_cdef_0011_2233_4455_6677);
    assert_eq!(t.iat, -5);
    assert_eq!(t.exp, 1_800_000_000);
    assert_eq!(t.dn, "Dee");
    assert!(!t.admin);
}

#[test]
fn claims_from_pairs() {
    let pairs = vec![
        ("admin".to_string(), "true".to_string()),
        ("dn".to_string(), "D".to_string()),
        ("email".to_string(), "d@example.com".to_string()),
        ("exp".to_string(), "20".to_string()),
        ("iat".to_string(), "10".to_string()),
        ("iss".to_string(), "hostsdottxt".to_string()),
        ("sub".to_string(), "00000000-0000-0000-0000-000000000001".to_string()),
    ];
    let t = token_from_claims(&pairs).unwrap();
    assert_eq!(t.sub, 1);
    assert_eq!(t.iat, 10);
    assert_eq!(t.exp, 20);
    assert!(t.admin);
    assert!(token_from_claims(&pairs[1..].to_vec()).is_none());
}

#[test]
fn api_key_digest_is_sha256_hex() {
    let a = api_key_hash("hdt_abc123");
    assert_eq!(a, "9fb1a819f5b887b2ad4439086251ade92a6db4c662508f0142e028bdceea446e");
    assert_eq!(api_key_hash("hdt_abc123"), a);
    let b = api_key_hash("hdt_abc124");
    assert_eq!(b, "48383991072972839aded4937c6ec0c19c5f5031f30638d3e4d198d1421914ca");
    assert_ne!(a, b);
    assert_eq!(api_key_hash("hdt_").len(), 64);
}

#[test]
fn credential_shapes() {
    assert!(matches!(parse_credential(None), Err(AuthenticationError::MissingHeader)));
    match parse_credential(Some("Bearer hdt_abc123")) {
        Ok(Credential::ApiKey(d)) => {
            assert_eq!(d, "9fb1a819f5b887b2ad4439086251ade92a6db4c662508f0142e028bdceea446e")
        }
        other => panic!("unexpected {:?}", other),
    }
    match parse_credential(Some("Bearer abc.def.ghi")) {
        Ok(Credential::SignedToken(t)) => assert_eq!(t, "abc.def.ghi"),
        other => panic!("unexpected {:?}", other),
    }
    match parse_credential(Some("abc.def.ghi")) {
        Ok(Credential::SignedToken(t)) => assert_eq!(t, "abc.def.ghi"),
        other => panic!("unexpected {:?}", other),
    }
}

#[test]
fn authenticate_dispatches_by_shape() {
    let codec = TokenCodec::new("dispatch secret");
    let user = sample_user(true, None);
    let token = codec.issue_at(&user, T0);
    let header = format!("Bearer {}", token);
    match Jwt::authenticate(&codec, Some(&header), T0 + 1) {
        AuthStep::Authenticated(Jwt(t)) => assert_eq!(t.sub, user.id),
        other => panic!("unexpected {:?}", other),
    }
    match Jwt::authenticate(&codec, Some(&header), T0 + 2 * DAY) {
        AuthStep::Rejected(e) => assert_eq!(e, AuthenticationError::Expired),
        other => panic!("unexpected {:?}", other),
    }
    match Jwt::authenticate(&codec, None, T0) {
        AuthStep::Rejected(e) => assert_eq!(e, AuthenticationError::MissingHeader),
        other => panic!("unexpected {:?}", other),
    }
    match Jwt::authenticate(&codec, Some("Bearer hdt_abc124"), T0) {
        AuthStep::LookupApiKey(d) => assert_eq!(d, api_key_hash("hdt_abc124")),
        other => panic!("unexpected {:?}", other),
    }
}

#[test]
fn api_key_user_becomes_principal() {
    assert!(matches!(Jwt::from_api_key_user(None), Err(AuthenticationError::UnknownApiKey)));
    let user = sample_user(true, Some("Alice"));
    let Jwt(t) = Jwt::from_api_key_user(Some(&user)).unwrap();
    assert_eq!(t.sub, user.id);
    assert_eq!(t.iat, 0);
    assert_eq!(t.exp, 0);
    assert_eq!(t.email, "alice@example.com");
    assert_eq!(t.dn, "alice@example.com");
    assert_eq!(t.iss, "hostsdottxt");
    assert!(t.admin);
}
