//! Request and response bodies, as plain values.
use vstd::prelude::*;

verus! {

/// A sign-up request.
#[derive(Debug)]
pub struct Signup {
    pub email: String,
    pub display_name: Option<String>,
    pub password: String,
}

/// A login request.
#[derive(Debug)]
pub struct Login {
    pub email: String,
    pub password: String,
    pub totp_code: Option<String>,
}

/// A record to create or update.
#[derive(Debug)]
pub struct Record {
    pub name: String,
    pub record_type: String,
    pub content: String,
    pub ttl: u32,
}

/// The query of a zone lookup for a name.
#[derive(Debug)]
pub struct RootDomainQuery {
    pub domain: String,
}

/// An error body with a reason.
#[derive(Debug)]
pub struct ErrorMessage {
    pub error: String,
    pub reason: String,
}

/// A JSON body of type `T`.
#[derive(Debug)]
pub struct Json<T>(pub T);

} // verus!
