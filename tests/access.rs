use hdt_api::access::{authorize, authorize_admin, check_record_write, check_zone_access, RecordWriteError};
use hdt_api::accounts::{check_login, check_signup, is_unique_violation, totp_status};
use hdt_api::errors::{AccountError, AuthorizationError, RecordValidationError};
use hdt_api::records::RecordType;
use hdt_api::models::{User, Zone};
use hdt_api::requests::{Record, Signup};
use hdt_api::token::Token;

const U1: u128 = 0x1111;
const U2: u128 = 0x2222;

fn principal(sub: u128, admin: bool) -> Token {
    Token {
        iss: "hostsdottxt".to_string(),
        sub,
        iat: 0,
        exp: 0,
        dn: "p".to_string(),
        email: "p@example.com".to_string(),
        admin,
    }
}

fn stored_user(enabled: bool, totp: bool) -> User {
    User {
        id: U1,
        email: "u@example.com".to_string(),
        password: "$2a$04$UuTkLRZZ6QofpDOlMz32MuuxEHA43WOemOYHPz6.SjsVsyO1tDU96".to_string(),
        display_name: None,
        admin: false,
        enabled,
        totp_secret: if totp { Some("JBSWY3DPEHPK3PXP".to_string()) } else { None },
    }
}

fn record(name: &str, rtype: &str, content: &str) -> Record {
    Record { name: name.to_string(), record_type: rtype.to_string(), content: content.to_string(), ttl: 300 }
}

#[test]
fn owner_is_allowed_other_is_denied() {
    assert_eq!(authorize(&principal(U1, false), U2), Err(AuthorizationError::NotOwner));
    assert_eq!(authorize(&principal(U1, false), U1), Ok(()));
}

#[test]
fn admin_flag_does_not_bypass_ownership() {
    assert_eq!(authorize(&principal(U1, true), U2), Err(AuthorizationError::NotOwner));
    let zone = Zone { id: "example.com.".to_string(), owner_uuid: U2 };
    assert_eq!(check_zone_access(&principal(U1, true), &zone), Err(AuthorizationError::NotOwner));
    assert_eq!(check_zone_access(&principal(U2, false), &zone), Ok(()));
}

#[test]
fn listing_users_needs_admin() {
    assert_eq!(authorize_admin(&principal(U1, true)), Ok(()));
    assert_eq!(authorize_admin(&principal(U1, false)), Err(AuthorizationError::NotAdmin));
}

#[test]
fn record_write_checks_in_order() {
    let zone = Zone { id: "example.com.".to_string(), owner_uuid: U1 };
    let ok = record("www.example.com.", "A", "1.2.3.4");
    assert_eq!(check_record_write(&principal(U1, false), &zone, &ok), Ok(()));
    assert_eq!(
        check_record_write(&principal(U2, false), &zone, &ok),
        Err(RecordWriteError::Forbidden(AuthorizationError::NotOwner))
    );
    let outside = record("www.other.com.", "A", "1.2.3.4");
    assert_eq!(
        check_record_write(&principal(U1, false), &zone, &outside),
        Err(RecordWriteError::Invalid(RecordValidationError::NotFullyQualified))
    );
    let bad = record("www.example.com.", "A", "256.1.1.1");
    assert_eq!(
        check_record_write(&principal(U1, false), &zone, &bad),
        Err(RecordWriteError::Invalid(RecordValidationError::MalformedContent(RecordType::A)))
    );
    let srv = record("_sip.example.com.", "SRV", "0 5 5060 sip.example.com.");
    assert_eq!(
        check_record_write(&principal(U1, false), &zone, &srv),
        Err(RecordWriteError::Invalid(RecordValidationError::UnsupportedType))
    );
}

#[test]
fn signup_rules() {
    let short = Signup { email: "a@example.com".to_string(), display_name: None, password: "short".to_string() };
    let long = Signup { email: "a@example.com".to_string(), display_name: None, password: "twelve chars".to_string() };
    assert_eq!(check_signup(false, &long), Err(AccountError::SignupsDisabled));
    assert_eq!(check_signup(true, &short), Err(AccountError::PasswordTooShort));
    assert_eq!(check_signup(true, &long), Ok(()));
    let eleven = Signup { email: "a@example.com".to_string(), display_name: None, password: "elevenchars".to_string() };
    assert_eq!(check_signup(true, &eleven), Err(AccountError::PasswordTooShort));
}

#[test]
fn login_rules() {
    let user = stored_user(true, false);
    assert_eq!(check_login(Some(&user), "password"), Ok(()));
    assert_eq!(check_login(Some(&user), "Password"), Err(AccountError::InvalidCredentials));
    assert_eq!(check_login(None, "password"), Err(AccountError::InvalidCredentials));
    let disabled = stored_user(false, false);
    assert_eq!(check_login(Some(&disabled), "password"), Err(AccountError::InvalidCredentials));
    let mut broken = stored_user(true, false);
    broken.password = "not a hash".to_string();
    assert_eq!(check_login(Some(&broken), "password"), Err(AccountError::InvalidCredentials));
}

#[test]
fn totp_discovery() {
    assert_eq!(totp_status(false, true, None), Err(AccountError::TotpDisabled));
    assert_eq!(totp_status(false, false, None), Err(AccountError::TotpDisabled));
    assert_eq!(totp_status(true, false, None), Err(AccountError::MissingEmail));
    assert_eq!(totp_status(true, true, None), Ok(false));
    assert_eq!(totp_status(true, true, Some(&stored_user(true, true))), Ok(true));
    assert_eq!(totp_status(true, true, Some(&stored_user(true, false))), Ok(false));
}

#[test]
fn unique_violation_code() {
    assert!(is_unique_violation(Some("23505")));
    assert!(!is_unique_violation(Some("23503")));
    assert!(!is_unique_violation(None));
}
