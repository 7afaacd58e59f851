//! Ownership authorization: the one rule for every zone and record operation.
use vstd::prelude::*;
use crate::errors::{AuthorizationError, RecordValidationError};
use crate::models::Zone;
use crate::records::{record_verdict, validate_containment, validate_record};
use crate::requests;
use crate::text::ends_with;
use crate::token::Token;

verus! {

/// Allows an operation on a resource only to the principal that owns it.
pub fn authorize(principal: &Token, owner: u128) -> (r: Result<(), AuthorizationError>)
    ensures
        r is Ok <==> principal.sub == owner,
        r is Err ==> r == Err::<(), AuthorizationError>(AuthorizationError::NotOwner),
{
    if principal.sub == owner {
        Ok(())
    } else {
        Err(AuthorizationError::NotOwner)
    }
}

/// Allows an operation reserved to administrators, such as listing users.
pub fn authorize_admin(principal: &Token) -> (r: Result<(), AuthorizationError>)
    ensures
        r is Ok <==> principal.admin,
        r is Err ==> r == Err::<(), AuthorizationError>(AuthorizationError::NotAdmin),
{
    if principal.admin {
        Ok(())
    } else {
        Err(AuthorizationError::NotAdmin)
    }
}

/// Why a record write inside a zone was refused.
#[derive(Debug, Clone, Copy, PartialEq, Eq, Structural)]
pub enum RecordWriteError {
    Forbidden(AuthorizationError),
    Invalid(RecordValidationError),
}

/// Decides a record write: the principal must own the zone, the record name
/// must end with the zone id, and the content must fit the record type.
pub fn check_record_write(principal: &Token, zone: &Zone, record: &requests::Record) -> (r: Result<(), RecordWriteError>)
    ensures
        principal.sub != zone.owner_uuid
            ==> r == Err::<(), RecordWriteError>(RecordWriteError::Forbidden(AuthorizationError::NotOwner)),
        principal.sub == zone.owner_uuid && !ends_with(record.name@, zone.id@)
            ==> r == Err::<(), RecordWriteError>(RecordWriteError::Invalid(RecordValidationError::NotFullyQualified)),
        principal.sub == zone.owner_uuid && ends_with(record.name@, zone.id@) ==> match record_verdict(record.record_type@, record.content@) {
            Ok(_) => r is Ok,
            Err(e) => r == Err::<(), RecordWriteError>(RecordWriteError::Invalid(e)),
        },
{
    if let Err(e) = authorize(principal, zone.owner_uuid) {
        return Err(RecordWriteError::Forbidden(e));
    }
    if let Err(e) = validate_containment(record.name.as_str(), zone.id.as_str()) {
        return Err(RecordWriteError::Invalid(e));
    }
    match validate_record(record.record_type.as_str(), record.content.as_str()) {
        Ok(()) => Ok(()),
        Err(e) => Err(RecordWriteError::Invalid(e)),
    }
}

/// Decides a read or delete inside a zone: the principal must own it.
pub fn check_zone_access(principal: &Token, zone: &Zone) -> (r: Result<(), AuthorizationError>)
    ensures
        r is Ok <==> principal.sub == zone.owner_uuid,
        r is Err ==> r == Err::<(), AuthorizationError>(AuthorizationError::NotOwner),
{
    authorize(principal, zone.owner_uuid)
}

} // verus!
