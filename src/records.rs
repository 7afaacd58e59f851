//! Record validation: type-specific content grammar and zone containment.
use vstd::prelude::*;
use crate::errors::RecordValidationError;
use crate::text::{ends_with, text_ends_with};
use crate::address::{ipv4_text, ipv6_text, is_ipv4_literal, is_ipv6_literal};

verus! {

/// The record types this service hosts.
#[derive(Debug, Clone, Copy, PartialEq, Eq, Structural)]
pub enum RecordType {
    A,
    AAAA,
    CNAME,
    MX,
    TXT,
}

/// A character that `char::is_digit(c, 36)` accepts.
pub open spec fn is_base36_digit(c: char) -> bool {
    ('0' <= c && c <= '9') || ('a' <= c && c <= 'z') || ('A' <= c && c <= 'Z')
}

/// The supported record type that a type name denotes.
pub open spec fn record_type_of(name: Seq<char>) -> Option<RecordType> {
    if name == seq!['A'] {
        Some(RecordType::A)
    } else if name == seq!['A', 'A', 'A', 'A'] {
        Some(RecordType::AAAA)
    } else if name == seq!['C', 'N', 'A', 'M', 'E'] {
        Some(RecordType::CNAME)
    } else if name == seq!['M', 'X'] {
        Some(RecordType::MX)
    } else if name == seq!['T', 'X', 'T'] {
        Some(RecordType::TXT)
    } else {
        None
    }
}

/// Relies on `trust_dns_proto::rr::RecordType::from_str`, which matches the
/// exact upper-case mnemonic; it asserts in debug builds that every
/// character is a base-36 digit. Types outside the hosted set map to `None`.
#[verifier::external_body]
fn dns_record_type(name: &str) -> (r: Option<RecordType>)
    requires
        forall|i: int| 0 <= i < name@.len() ==> is_base36_digit(#[trigger] name@[i]),
    ensures
        r == record_type_of(name@),
{
    match <trust_dns_proto::rr::RecordType as std::str::FromStr>::from_str(name) {
        Ok(trust_dns_proto::rr::RecordType::A) => Some(RecordType::A),
        Ok(trust_dns_proto::rr::RecordType::AAAA) => Some(RecordType::AAAA),
        Ok(trust_dns_proto::rr::RecordType::CNAME) => Some(RecordType::CNAME),
        Ok(trust_dns_proto::rr::RecordType::MX) => Some(RecordType::MX),
        Ok(trust_dns_proto::rr::RecordType::TXT) => Some(RecordType::TXT),
        Ok(_) => None,
        Err(_) => None,
    }
}

/// Parses a record type name into the hosted set of types.
pub fn parse_record_type(name: &str) -> (r: Option<RecordType>)
    ensures
        r == record_type_of(name@),
{
    let n = name.unicode_len();
    let mut i: usize = 0;
    while i < n
        invariant
            i <= n,
            n == name@.len(),
            forall|j: int| 0 <= j < i ==> is_base36_digit(#[trigger] name@[j]),
        decreases n - i,
    {
        let c = name.get_char(i);
        if !(('0' <= c && c <= '9') || ('a' <= c && c <= 'z') || ('A' <= c && c <= 'Z')) {
            proof {
                assert(!is_base36_digit(name@[i as int]));
                assert(name@ != seq!['A']);
                assert(name@ != seq!['A', 'A', 'A', 'A']);
                assert(name@ != seq!['C', 'N', 'A', 'M', 'E']);
                assert(name@ != seq!['M', 'X']);
                assert(name@ != seq!['T', 'X', 'T']);
            }
            return None;
        }
        i += 1;
    }
    dns_record_type(name)
}

/// Whether `trust_dns_proto::rr::Name` accepts the text.
pub uninterp spec fn dns_name_literal(s: Seq<char>) -> bool;

/// Relies on `<trust_dns_proto::rr::Name as FromStr>::from_str`; the verdict
/// depends on the text alone.
#[verifier::external_body]
fn parses_as_dns_name(s: &str) -> (r: bool)
    ensures
        r == dns_name_literal(s@),
{
    s.parse::<trust_dns_proto::rr::Name>().is_ok()
}

/// The verdict on `content` for a record of the given type name.
pub open spec fn record_verdict(rtype: Seq<char>, content: Seq<char>) -> Result<(), RecordValidationError> {
    match record_type_of(rtype) {
        None => Err(RecordValidationError::UnsupportedType),
        Some(t) => {
            let ok = match t {
                RecordType::A => ipv4_text(content),
                RecordType::AAAA => ipv6_text(content),
                RecordType::CNAME => dns_name_literal(content),
                RecordType::MX => dns_name_literal(content),
                RecordType::TXT => true,
            };
            if ok {
                Ok(())
            } else {
                Err(RecordValidationError::MalformedContent(t))
            }
        },
    }
}

/// Checks `content` against the grammar of the record type `rtype`.
pub fn validate_record(rtype: &str, content: &str) -> (r: Result<(), RecordValidationError>)
    ensures
        r == record_verdict(rtype@, content@),
{
    match parse_record_type(rtype) {
        None => Err(RecordValidationError::UnsupportedType),
        Some(t) => {
            let ok = match t {
                RecordType::A => is_ipv4_literal(content),
                RecordType::AAAA => is_ipv6_literal(content),
                RecordType::CNAME => parses_as_dns_name(content),
                RecordType::MX => parses_as_dns_name(content),
                RecordType::TXT => true,
            };
            if ok {
                Ok(())
            } else {
                Err(RecordValidationError::MalformedContent(t))
            }
        },
    }
}

/// A record name must end with the id of its zone.
pub fn validate_containment(record_name: &str, zone_id: &str) -> (r: Result<(), RecordValidationError>)
    ensures
        r is Ok <==> ends_with(record_name@, zone_id@),
        r is Err ==> r == Err::<(), RecordValidationError>(RecordValidationError::NotFullyQualified),
{
    if text_ends_with(record_name, zone_id) {
        Ok(())
    } else {
        Err(RecordValidationError::NotFullyQualified)
    }
}

} // verus!
