//! Domain names: normalization, registrable roots and zone lookup.
use vstd::prelude::*;
use crate::text::{ends_with, text_ends_with, text_eq};
use crate::errors::DomainValidationError;
use crate::models::Zone;

verus! {

/// `s` with a trailing `.` appended unless it already ends with one.
pub open spec fn normalized(s: Seq<char>) -> Seq<char> {
    if s.len() > 0 && s.last() == '.' {
        s
    } else {
        s.push('.')
    }
}

/// Appends a trailing `.` to `domain` if it is absent.
pub fn ensure_trailing_dot(domain: &str) -> (r: String)
    ensures
        r@ == normalized(domain@),
{
    let n = domain.unicode_len();
    let mut r = domain.to_owned();
    if n > 0 && domain.get_char(n - 1) == '.' {
        r
    } else {
        r.append(".");
        proof {
            reveal_strlit(".");
        }
        assert(r@ =~= domain@.push('.'));
        r
    }
}

/// Normalizing twice is the same as normalizing once.
pub proof fn lemma_normalize_idempotent(s: Seq<char>)
    ensures
        normalized(normalized(s)) == normalized(s),
{
}


/// What the public suffix list says of a name: `None` when the name does
/// not parse as a domain name, else whether its suffix is listed and its
/// registrable root, if it has one.
pub uninterp spec fn public_suffix_view(name: Seq<char>) -> Option<(bool, Option<Seq<char>>)>;

/// Relies on `addr::parse_domain_name` and, on the parsed name,
/// `has_known_suffix` and `root`: the outcome depends on the name alone.
#[verifier::external_body]
fn public_suffix_lookup(name: &str) -> (r: Option<(bool, Option<String>)>)
    ensures
        match (public_suffix_view(name@), r) {
            (None, None) => true,
            (Some((known, None)), Some((k, None))) => k == known,
            (Some((known, Some(x))), Some((k, Some(y)))) => k == known && y@ == x,
            _ => false,
        },
{
    match addr::parse_domain_name(name) {
        Ok(parsed) => Some((parsed.has_known_suffix(), parsed.root().map(|x| x.to_string()))),
        Err(_) => None,
    }
}

/// The registrable root of `fqdn`: defined when the name parses, its suffix
/// is on the public suffix list, and one label stands before that suffix.
pub open spec fn root_of(fqdn: Seq<char>) -> Option<Seq<char>> {
    match public_suffix_view(fqdn) {
        Some((true, Some(root))) => Some(root),
        _ => None,
    }
}

/// Computes the registrable root (public suffix plus one label) of `fqdn`.
pub fn compute_root(fqdn: &str) -> (r: Result<String, DomainValidationError>)
    ensures
        match root_of(fqdn@) {
            Some(root) => r is Ok && r->Ok_0@ == root,
            None => r == Err::<String, DomainValidationError>(DomainValidationError::InvalidDomain),
        },
{
    match public_suffix_lookup(fqdn) {
        Some((true, Some(root))) => Ok(root),
        _ => Err(DomainValidationError::InvalidDomain),
    }
}

/// A zone may only be created at its own registrable root.
pub fn enforce_is_root(fqdn: &str, root: &str) -> (r: Result<(), DomainValidationError>)
    ensures
        r is Ok <==> fqdn@ == root@,
        r is Err ==> r == Err::<(), DomainValidationError>(DomainValidationError::NotRootDomain),
{
    if text_eq(fqdn, root) {
        Ok(())
    } else {
        Err(DomainValidationError::NotRootDomain)
    }
}

/// The zone id under which a requested name may be created, or why not.
pub open spec fn zone_id_for(requested: Seq<char>) -> Result<Seq<char>, DomainValidationError> {
    let name = normalized(requested);
    match root_of(name) {
        None => Err(DomainValidationError::InvalidDomain),
        Some(root) => if root == name {
            Ok(root)
        } else {
            Err(DomainValidationError::NotRootDomain)
        },
    }
}

/// Normalizes a requested zone name and checks that it is a registrable root.
pub fn validate_zone_name(requested: &str) -> (r: Result<String, DomainValidationError>)
    ensures
        match zone_id_for(requested@) {
            Ok(id) => r is Ok && r->Ok_0@ == id,
            Err(e) => r == Err::<String, DomainValidationError>(e),
        },
{
    let name = ensure_trailing_dot(requested);
    let root = compute_root(name.as_str())?;
    enforce_is_root(name.as_str(), root.as_str())?;
    Ok(root)
}

/// The registration check of a new zone, from what a WHOIS answer said.
pub fn check_registration(is_registered: bool, is_under_grace_period: bool) -> (r: Result<(), DomainValidationError>)
    ensures
        r is Ok <==> (is_registered && !is_under_grace_period),
        r is Err ==> r == Err::<(), DomainValidationError>(DomainValidationError::NotRegistered),
{
    if !is_registered || is_under_grace_period {
        Err(DomainValidationError::NotRegistered)
    } else {
        Ok(())
    }
}

/// `zone_id` owns `candidate`: the two are equal, or `candidate` ends with
/// `.` followed by `zone_id`.
pub open spec fn zone_covers(candidate: Seq<char>, zone_id: Seq<char>) -> bool {
    candidate == zone_id || ends_with(candidate, seq!['.'] + zone_id)
}

/// Two zones that own the same name with ids of the same length are the
/// same zone id, so the longest owning zone is determined by the name.
pub proof fn lemma_owning_zone_unique(candidate: Seq<char>, a: Seq<char>, b: Seq<char>)
    requires
        zone_covers(candidate, a),
        zone_covers(candidate, b),
        a.len() == b.len(),
    ensures
        a == b,
{
    let n = candidate.len() as int;
    let m = a.len() as int;
    if candidate != a && candidate != b {
        let da = seq!['.'] + a;
        let db = seq!['.'] + b;
        assert(a =~= da.subrange(1, m + 1));
        assert(b =~= db.subrange(1, m + 1));
        assert(da.subrange(1, m + 1) =~= candidate.subrange(n - m, n));
        assert(db.subrange(1, m + 1) =~= candidate.subrange(n - m, n));
    }
}

/// Whether the zone `zone_id` owns the name `candidate`.
pub fn covers(candidate: &str, zone_id: &str) -> (r: bool)
    ensures
        r == zone_covers(candidate@, zone_id@),
{
    if text_eq(candidate, zone_id) {
        return true;
    }
    let n = candidate.unicode_len();
    let m = zone_id.unicode_len();
    if m >= n {
        return false;
    }
    let dot = candidate.get_char(n - m - 1) == '.';
    let tail = text_ends_with(candidate, zone_id);
    let ghost c = candidate@;
    let ghost z = seq!['.'] + zone_id@;
    assert(ends_with(c, z) <==> (dot && tail)) by {
        if ends_with(c, z) {
            assert(c.subrange(n - m - 1, n as int)[0] == z[0]);
            assert(c.subrange(n - m, n as int) =~= c.subrange(n - m - 1, n as int).subrange(1, m + 1));
            assert(z.subrange(1, m + 1) =~= zone_id@);
        }
        if dot && tail {
            assert(c.subrange(n - m - 1, n as int) =~= z);
        }
    }
    dot && tail
}

/// Among `zones`, the one that owns `candidate` with the longest id
/// (the most specific zone), or `None` when no zone owns it.
pub fn find_owning_zone(candidate: &str, zones: &Vec<Zone>) -> (r: Option<Zone>)
    ensures
        r is None <==> forall|i: int| 0 <= i < zones@.len() ==> !zone_covers(candidate@, #[trigger] zones@[i].id@),
        r is Some ==> exists|i: int| 0 <= i < zones@.len() && zones@[i] == r->0,
        r is Some ==> zone_covers(candidate@, r->0.id@),
        r is Some ==> forall|i: int|
            0 <= i < zones@.len() && zone_covers(candidate@, #[trigger] zones@[i].id@)
                ==> zones@[i].id@.len() <= r->0.id@.len(),
{
    let mut best: Option<Zone> = None;
    let mut best_len: usize = 0;
    let mut i: usize = 0;
    while i < zones.len()
        invariant
            i <= zones@.len(),
            best is None <==> forall|j: int| 0 <= j < i ==> !zone_covers(candidate@, #[trigger] zones@[j].id@),
            best is Some ==> exists|j: int| 0 <= j < i && zones@[j] == best->0,
            best is Some ==> zone_covers(candidate@, best->0.id@),
            best is Some ==> best_len == best->0.id@.len(),
            best is Some ==> forall|j: int|
                0 <= j < i && zone_covers(candidate@, #[trigger] zones@[j].id@)
                    ==> zones@[j].id@.len() <= best_len,
        decreases zones@.len() - i,
    {
        let zone = &zones[i];
        if covers(candidate, zone.id.as_str()) {
            let len = zone.id.unicode_len();
            if best.is_none() || len > best_len {
                best = Some(zone.clone());
                best_len = len;
            }
        }
        i += 1;
    }
    best
}

} // verus!
