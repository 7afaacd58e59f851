//! Account rules: sign-up, login, TOTP discovery, and storage conflicts.
use vstd::prelude::*;
use vstd::utf8::encode_utf8;
use crate::errors::AccountError;
use crate::models::User;
use crate::requests::Signup;
use crate::text::text_eq;

verus! {

/// The fewest bytes a new password may have.
pub const MIN_PASSWORD_BYTES: usize = 12;

/// The length in bytes of the UTF-8 form of `s`, as `str::len` reports it.
pub open spec fn byte_len(s: Seq<char>) -> usize {
    #[verifier::truncate]
    (encode_utf8(s).len() as usize)
}

/// Accepts a sign-up when sign-ups are enabled and the password has at least
/// `MIN_PASSWORD_BYTES` bytes of UTF-8.
pub fn check_signup(signups_enabled: bool, signup: &Signup) -> (r: Result<(), AccountError>)
    ensures
        !signups_enabled ==> r == Err::<(), AccountError>(AccountError::SignupsDisabled),
        signups_enabled && byte_len(signup.password@) < MIN_PASSWORD_BYTES
            ==> r == Err::<(), AccountError>(AccountError::PasswordTooShort),
        signups_enabled && byte_len(signup.password@) >= MIN_PASSWORD_BYTES ==> r is Ok,
{
    if !signups_enabled {
        return Err(AccountError::SignupsDisabled);
    }
    if signup.password.as_str().len() < MIN_PASSWORD_BYTES {
        return Err(AccountError::PasswordTooShort);
    }
    Ok(())
}

/// Whether a password matches a stored bcrypt hash.
pub uninterp spec fn bcrypt_accepts(password: Seq<char>, hash: Seq<char>) -> bool;

/// Relies on `bcrypt::verify`, which rehashes the password with the cost and
/// salt stored in the hash; a hash that does not parse matches nothing.
#[verifier::external_body]
fn password_matches(password: &str, hash: &str) -> (r: bool)
    ensures
        r == bcrypt_accepts(password@, hash@),
{
    bcrypt::verify(password, hash).unwrap_or(false)
}

/// Decides a login from what the user lookup by email found: the password
/// must match the stored hash and the account must be enabled. Every failure
/// reads the same, so a caller learns nothing about which check failed.
pub fn check_login(found: Option<&User>, password: &str) -> (r: Result<(), AccountError>)
    ensures
        r is Ok <==> match found {
            None => false,
            Some(u) => bcrypt_accepts(password@, u.password@) && u.enabled,
        },
        r is Err ==> r == Err::<(), AccountError>(AccountError::InvalidCredentials),
{
    match found {
        None => Err(AccountError::InvalidCredentials),
        Some(u) => {
            if !password_matches(password, u.password.as_str()) {
                return Err(AccountError::InvalidCredentials);
            }
            if !u.enabled {
                return Err(AccountError::InvalidCredentials);
            }
            Ok(())
        },
    }
}

/// Whether the account asked about needs a TOTP code to log in. TOTP must
/// be enabled and the query must name an email; `found` is what the user
/// lookup by that email found, and an unknown email reads as needing none.
pub fn totp_status(totp_enabled: bool, email_given: bool, found: Option<&User>) -> (r: Result<bool, AccountError>)
    ensures
        !totp_enabled ==> r == Err::<bool, AccountError>(AccountError::TotpDisabled),
        totp_enabled && !email_given ==> r == Err::<bool, AccountError>(AccountError::MissingEmail),
        totp_enabled && email_given ==> r == Ok::<bool, AccountError>(
            match found {
                None => false,
                Some(u) => u.totp_secret is Some,
            },
        ),
{
    if !totp_enabled {
        return Err(AccountError::TotpDisabled);
    }
    if !email_given {
        return Err(AccountError::MissingEmail);
    }
    match found {
        None => Ok(false),
        Some(u) => Ok(u.totp_secret.is_some()),
    }
}

/// The storage error code of a unique-constraint violation.
pub open spec fn unique_violation_code() -> Seq<char> {
    seq!['2', '3', '5', '0', '5']
}

/// Whether a storage error code reports a unique-constraint violation,
/// which surfaces as "already exists" rather than as an internal error.
pub fn is_unique_violation(code: Option<&str>) -> (r: bool)
    ensures
        r == match code {
            None => false,
            Some(c) => c@ == unique_violation_code(),
        },
{
    match code {
        None => false,
        Some(c) => {
            proof {
                reveal_strlit("23505");
            }
            let r = text_eq(c, "23505");
            assert("23505"@ =~= unique_violation_code());
            r
        },
    }
}

} // verus!
