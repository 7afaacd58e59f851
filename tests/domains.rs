use hdt_api::domain::{
    check_registration, compute_root, covers, enforce_is_root, ensure_trailing_dot, find_owning_zone,
    validate_zone_name,
};
use hdt_api::errors::DomainValidationError;
use hdt_api::models::Zone;

fn zone_owned_by(id: &str, owner: u128) -> Zone {
    Zone { id: id.to_string(), owner_uuid: owner }
}

#[test]
fn trailing_dot_is_appended_once() {
    assert_eq!(ensure_trailing_dot("example.com"), "example.com.");
    assert_eq!(ensure_trailing_dot("example.com."), "example.com.");
    assert_eq!(ensure_trailing_dot(&ensure_trailing_dot("example.com")), "example.com.");
    assert_eq!(ensure_trailing_dot(""), ".");
}

#[test]
fn root_of_name_under_two_label_suffix() {
    assert_eq!(compute_root("a.b.example.co.uk."), Ok("example.co.uk.".to_string()));
}

#[test]
fn root_of_root_is_itself() {
    assert_eq!(compute_root("example.com."), Ok("example.com.".to_string()));
    assert_eq!(compute_root("www.example.com."), Ok("example.com.".to_string()));
}

#[test]
fn bare_public_suffix_has_no_root() {
    assert_eq!(compute_root("co.uk."), Err(DomainValidationError::InvalidDomain));
}

#[test]
fn unparsable_name_is_invalid() {
    assert_eq!(compute_root("exa mple.com."), Err(DomainValidationError::InvalidDomain));
}

#[test]
fn enforce_is_root_rejects_subdomain() {
    assert_eq!(enforce_is_root("a.example.com.", "example.com."), Err(DomainValidationError::NotRootDomain));
    assert_eq!(enforce_is_root("example.com.", "example.com."), Ok(()));
}

#[test]
fn zone_name_validation() {
    assert_eq!(validate_zone_name("example.com"), Ok("example.com.".to_string()));
    assert_eq!(validate_zone_name("example.co.uk."), Ok("example.co.uk.".to_string()));
    assert_eq!(validate_zone_name("www.example.com"), Err(DomainValidationError::NotRootDomain));
    assert_eq!(validate_zone_name("co.uk"), Err(DomainValidationError::InvalidDomain));
}

#[test]
fn registration_verdicts() {
    assert_eq!(check_registration(true, false), Ok(()));
    assert_eq!(check_registration(false, false), Err(DomainValidationError::NotRegistered));
    assert_eq!(check_registration(true, true), Err(DomainValidationError::NotRegistered));
}

#[test]
fn longest_suffix_zone_wins() {
    let zones = vec![zone_owned_by("example.com.", 1), zone_owned_by("sub.example.com.", 1)];
    let found = find_owning_zone("a.sub.example.com.", &zones).unwrap();
    assert_eq!(found.id, "sub.example.com.");
    let zones = vec![zone_owned_by("sub.example.com.", 1), zone_owned_by("example.com.", 1)];
    let found = find_owning_zone("a.sub.example.com.", &zones).unwrap();
    assert_eq!(found.id, "sub.example.com.");
}

#[test]
fn owning_zone_of_the_zone_name_itself() {
    let zones = vec![zone_owned_by("example.com.", 7)];
    let found = find_owning_zone("example.com.", &zones).unwrap();
    assert_eq!(found.id, "example.com.");
    assert_eq!(found.owner_uuid, 7);
}

#[test]
fn no_owning_zone_is_none() {
    let zones = vec![zone_owned_by("example.com.", 1)];
    assert!(find_owning_zone("www.other.com.", &zones).is_none());
    assert!(find_owning_zone("notexample.com.", &zones).is_none());
    assert!(find_owning_zone("a.example.com.", &Vec::new()).is_none());
}

#[test]
fn covers_respects_label_boundaries() {
    assert!(covers("www.example.com.", "example.com."));
    assert!(covers("example.com.", "example.com."));
    assert!(!covers("wwwexample.com.", "example.com."));
    assert!(!covers("com.", "example.com."));
}
