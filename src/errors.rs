//! The rejection taxonomy. Each variant is a distinct, stable outcome.
use vstd::prelude::*;
use crate::records::RecordType;

verus! {

/// Why a credential was not accepted.
#[derive(Debug, Clone, Copy, PartialEq, Eq, Structural)]
pub enum AuthenticationError {
    MissingHeader,
    InvalidSignature,
    MalformedClaims,
    Expired,
    NotYetValid,
    UnknownApiKey,
}

/// Why an authenticated principal may not perform an operation.
#[derive(Debug, Clone, Copy, PartialEq, Eq, Structural)]
pub enum AuthorizationError {
    NotOwner,
    NotAdmin,
}

/// Why a name cannot become a zone.
#[derive(Debug, Clone, Copy, PartialEq, Eq, Structural)]
pub enum DomainValidationError {
    InvalidDomain,
    NotRootDomain,
    NotRegistered,
}

/// Why a record write was not accepted.
#[derive(Debug, Clone, Copy, PartialEq, Eq, Structural)]
pub enum RecordValidationError {
    UnsupportedType,
    MalformedContent(RecordType),
    NotFullyQualified,
}

/// Why an account request was not accepted.
#[derive(Debug, Clone, Copy, PartialEq, Eq, Structural)]
pub enum AccountError {
    SignupsDisabled,
    PasswordTooShort,
    AlreadyExists,
    InvalidCredentials,
    TotpDisabled,
    MissingEmail,
}

} // verus!
