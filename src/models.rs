//! The stored entities that the core reads.
use vstd::prelude::*;

verus! {

/// A user as the storage collaborator holds it. Identifiers are the 128-bit
/// value of a UUID.
#[derive(Debug)]
pub struct User {
    pub id: u128,
    pub email: String,
    pub password: String,
    pub display_name: Option<String>,
    pub admin: bool,
    pub enabled: bool,
    pub totp_secret: Option<String>,
}

/// A copy of an optional string.
pub fn clone_optional(s: &Option<String>) -> (r: Option<String>)
    ensures
        r == *s,
{
    match s {
        Some(v) => Some(v.clone()),
        None => None,
    }
}

impl Clone for User {
    fn clone(&self) -> (r: User)
        ensures
            r == *self,
    {
        User {
            id: self.id,
            email: self.email.clone(),
            password: self.password.clone(),
            display_name: clone_optional(&self.display_name),
            admin: self.admin,
            enabled: self.enabled,
            totp_secret: clone_optional(&self.totp_secret),
        }
    }
}

/// A zone: a registrable domain name and the user who owns it.
#[derive(Debug)]
pub struct Zone {
    pub id: String,
    pub owner_uuid: u128,
}

impl Clone for Zone {
    fn clone(&self) -> (r: Zone)
        ensures
            r == *self,
    {
        Zone { id: self.id.clone(), owner_uuid: self.owner_uuid }
    }
}

/// A record inside a zone.
#[derive(Debug)]
pub struct Record {
    pub id: u128,
    pub zone_id: String,
    pub name: String,
    pub record_type: String,
    pub content: String,
    pub ttl: i32,
}

} // verus!
