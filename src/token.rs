//! Signed claim tokens: issuance and verification under one shared secret.
use vstd::prelude::*;
use hmac::Mac;
use vstd::string::StringSliceAdditionalSpecFns;
use vstd::string::StrSliceExecFns;
use jwt::{SignWithKey, VerifyWithKey};
use crate::decimal::{decimal_text, i64_from_text, i64_of_text, i64_to_text, lemma_i64_text_round_trip};
use crate::errors::AuthenticationError;
use crate::models::User;
use crate::text::{starts_with, text_eq};
use crate::credential::{hex_digit, is_api_key};
use vstd::arithmetic::power::pow;

verus! {

/// Seconds for which an issued token is valid.
pub const TOKEN_LIFETIME: i64 = 86400;

/// The claims of a token as mathematical values.
pub struct TokenView {
    pub iss: Seq<char>,
    pub sub: u128,
    pub iat: i64,
    pub exp: i64,
    pub dn: Seq<char>,
    pub email: Seq<char>,
    pub admin: bool,
}

/// The authenticated identity carried by a request: issuer, subject (the
/// user id), issue and expiry instants, display name, email and admin flag.
#[derive(Debug)]
pub struct Token {
    pub iss: String,
    pub sub: u128,
    pub iat: i64,
    pub exp: i64,
    pub dn: String,
    pub email: String,
    pub admin: bool,
}

impl View for Token {
    type V = TokenView;

    open spec fn view(&self) -> TokenView {
        TokenView {
            iss: self.iss@,
            sub: self.sub,
            iat: self.iat,
            exp: self.exp,
            dn: self.dn@,
            email: self.email@,
            admin: self.admin,
        }
    }
}

/// Hexadecimal digit `k` (0 to 31, most significant first) of a 128-bit id.
pub open spec fn uuid_nibble(id: u128, k: int) -> nat {
    ((id as int / pow(16, (31 - k) as nat)) % 16) as nat
}

/// The text of a UUID in hyphenated lower-case form: its 32 hexadecimal
/// digits, most significant first, with a `-` after digits 8, 12, 16 and 20.
pub open spec fn uuid_text_of(id: u128) -> Seq<char> {
    Seq::new(
        36,
        |j: int|
            if j == 8 || j == 13 || j == 18 || j == 23 {
                '-'
            } else {
                let before: int = if j < 8 {
                    0
                } else if j < 13 {
                    1
                } else if j < 18 {
                    2
                } else if j < 23 {
                    3
                } else {
                    4
                };
                hex_digit(uuid_nibble(id, j - before))
            },
    )
}

/// What `uuid::Uuid::parse_str` makes of a text.
pub uninterp spec fn uuid_parse_of(s: Seq<char>) -> Option<u128>;

/// Relies on `uuid::Uuid::to_string` (through `from_u128`, which takes the
/// value's bytes big-endian): the hyphenated lower-case form, which
/// `Uuid::parse_str` reads back to the same value.
#[verifier::external_body]
fn uuid_to_text(id: u128) -> (r: String)
    ensures
        r@ == uuid_text_of(id),
        uuid_parse_of(r@) == Some(id),
{
    uuid::Uuid::from_u128(id).to_string()
}

/// Relies on `uuid::Uuid::parse_str` (value taken with `as_u128`).
#[verifier::external_body]
fn uuid_from_text(s: &str) -> (r: Option<u128>)
    ensures
        r == uuid_parse_of(s@),
{
    uuid::Uuid::parse_str(s).ok().map(|u| u.as_u128())
}

/// The text of a boolean claim.
pub open spec fn bool_text(b: bool) -> Seq<char> {
    if b {
        "true"@
    } else {
        "false"@
    }
}

/// The boolean that a claim text denotes.
pub open spec fn bool_of_text(s: Seq<char>) -> Option<bool> {
    if s == "true"@ {
        Some(true)
    } else if s == "false"@ {
        Some(false)
    } else {
        None
    }
}

/// The claim map that a list of pairs makes: a later pair for a key
/// replaces an earlier one.
pub open spec fn pairs_map(v: Seq<(String, String)>) -> Map<Seq<char>, Seq<char>>
    decreases v.len(),
{
    if v.len() == 0 {
        Map::empty()
    } else {
        pairs_map(v.drop_last()).insert(v.last().0@, v.last().1@)
    }
}

/// No key occurs twice in the list.
pub open spec fn unique_keys(v: Seq<(String, String)>) -> bool {
    forall|i: int, j: int| 0 <= i < j < v.len() ==> #[trigger] v[i].0@ != #[trigger] v[j].0@
}

/// What the signed form of a claim map is under a secret.
pub uninterp spec fn jwt_signed_of(secret: Seq<u8>, claims: Map<Seq<char>, Seq<char>>) -> Seq<char>;

/// The claim map of a token whose tag checks under the secret, or `None`.
pub uninterp spec fn jwt_claims_of(secret: Seq<u8>, token: Seq<char>) -> Option<Map<Seq<char>, Seq<char>>>;

/// Relies on `jwt::SignWithKey` on a `BTreeMap` of strings with an
/// `Hmac<Sha256>` key: HMAC accepts a key of any length and a map of strings
/// always serializes, so signing succeeds, and `VerifyWithKey` with the same
/// secret gives back the same map. A token begins with the base64url form of
/// its JSON header, `eyJ`, never with the API key prefix.
#[verifier::external_body]
fn jwt_sign(secret: &[u8], claims: &Vec<(String, String)>) -> (r: Option<String>)
    requires
        unique_keys(claims@),
    ensures
        r is Some,
        r->0@ == jwt_signed_of(secret@, pairs_map(claims@)),
        jwt_claims_of(secret@, r->0@) == Some(pairs_map(claims@)),
        !starts_with(r->0@, "hdt_"@),
{
    let key = match hmac::Hmac::<sha2::Sha256>::new_from_slice(secret) {
        Ok(k) => k,
        Err(_) => return None,
    };
    let map: std::collections::BTreeMap<&str, &str> =
        claims.iter().map(|(k, v)| (k.as_str(), v.as_str())).collect();
    map.sign_with_key(&key).ok()
}

/// Relies on `jwt::VerifyWithKey` into a `BTreeMap` of strings with an
/// `Hmac<Sha256>` key; the map's entries come out in key order, each key once.
/// An accepted token's first part decodes to a JSON header, so its first
/// character is the base64url of `{` or of JSON whitespace, never `h`.
#[verifier::external_body]
fn jwt_verify(secret: &[u8], token: &str) -> (r: Option<Vec<(String, String)>>)
    ensures
        match jwt_claims_of(secret@, token@) {
            None => r is None,
            Some(m) => r is Some && pairs_map(r->0@) == m && unique_keys(r->0@),
        },
        r is Some ==> !starts_with(token@, "hdt_"@),
{
    let key = match hmac::Hmac::<sha2::Sha256>::new_from_slice(secret) {
        Ok(k) => k,
        Err(_) => return None,
    };
    let claims: Result<std::collections::BTreeMap<String, String>, jwt::Error> = token.verify_with_key(&key);
    claims.ok().map(|m| m.into_iter().collect())
}

proof fn lemma_pairs_map_found(v: Seq<(String, String)>, i: int)
    requires
        unique_keys(v),
        0 <= i < v.len(),
    ensures
        pairs_map(v).contains_key(v[i].0@),
        pairs_map(v)[v[i].0@] == v[i].1@,
    decreases v.len(),
{
    if i < v.len() - 1 {
        let w = v.drop_last();
        assert(unique_keys(w)) by {
            assert forall|a: int, b: int| 0 <= a < b < w.len() implies #[trigger] w[a].0@ != #[trigger] w[b].0@ by {
                assert(w[a] == v[a] && w[b] == v[b]);
            }
        }
        assert(w[i] == v[i]);
        assert(v[i].0@ != v[v.len() - 1].0@);
        lemma_pairs_map_found(w, i);
    }
}

proof fn lemma_pairs_map_absent(v: Seq<(String, String)>, k: Seq<char>)
    requires
        forall|j: int| 0 <= j < v.len() ==> (#[trigger] v[j]).0@ != k,
    ensures
        !pairs_map(v).contains_key(k),
    decreases v.len(),
{
    if v.len() > 0 {
        let w = v.drop_last();
        assert forall|j: int| 0 <= j < w.len() implies (#[trigger] w[j]).0@ != k by {
            assert(w[j] == v[j]);
        }
        assert(v[v.len() - 1].0@ != k);
        lemma_pairs_map_absent(w, k);
    }
}

/// The value of claim `key` in a list of pairs with unique keys.
fn claim_value(pairs: &Vec<(String, String)>, key: &str) -> (r: Option<usize>)
    requires
        unique_keys(pairs@),
    ensures
        match r {
            None => !pairs_map(pairs@).contains_key(key@),
            Some(i) => i < pairs@.len() && pairs_map(pairs@).contains_key(key@)
                && pairs_map(pairs@)[key@] == pairs@[i as int].1@,
        },
{
    let mut i: usize = 0;
    while i < pairs.len()
        invariant
            i <= pairs@.len(),
            unique_keys(pairs@),
            forall|j: int| 0 <= j < i ==> (#[trigger] pairs@[j]).0@ != key@,
        decreases pairs@.len() - i,
    {
        if text_eq(pairs[i].0.as_str(), key) {
            proof {
                lemma_pairs_map_found(pairs@, i as int);
            }
            return Some(i);
        }
        i += 1;
    }
    proof {
        lemma_pairs_map_absent(pairs@, key@);
    }
    None
}

/// The token that a claim map describes, when every claim is present and
/// well formed.
pub open spec fn token_of_claims(m: Map<Seq<char>, Seq<char>>) -> Option<TokenView> {
    if m.contains_key("iss"@) && m.contains_key("sub"@) && m.contains_key("iat"@)
        && m.contains_key("exp"@) && m.contains_key("dn"@) && m.contains_key("email"@)
        && m.contains_key("admin"@) {
        match (uuid_parse_of(m["sub"@]), i64_of_text(m["iat"@]), i64_of_text(m["exp"@]), bool_of_text(m["admin"@])) {
            (Some(sub), Some(iat), Some(exp), Some(admin)) => Some(
                TokenView { iss: m["iss"@], sub, iat, exp, dn: m["dn"@], email: m["email"@], admin },
            ),
            _ => None,
        }
    } else {
        None
    }
}

/// The outcome of verifying `token` under `secret` at instant `now`.
pub open spec fn signed_verdict(secret: Seq<u8>, token: Seq<char>, now: i64) -> Result<TokenView, AuthenticationError> {
    match jwt_claims_of(secret, token) {
        None => Err(AuthenticationError::InvalidSignature),
        Some(m) => match token_of_claims(m) {
            None => Err(AuthenticationError::MalformedClaims),
            Some(t) => if t.iat > now {
                Err(AuthenticationError::NotYetValid)
            } else if t.exp < now {
                Err(AuthenticationError::Expired)
            } else {
                Ok(t)
            },
        },
    }
}

/// A token is only ever accepted when its tag checks under the secret:
/// whatever fails the tag check yields `InvalidSignature`, never a principal.
pub proof fn lemma_accepted_tokens_pass_tag_check(secret: Seq<u8>, token: Seq<char>, now: i64)
    ensures
        signed_verdict(secret, token, now) is Ok ==> jwt_claims_of(secret, token) is Some,
        jwt_claims_of(secret, token) is None ==> signed_verdict(secret, token, now)
            == Err::<TokenView, AuthenticationError>(AuthenticationError::InvalidSignature),
{
}

/// At the edges of a token's lifetime: one second after its expiry it is
/// rejected as expired, at its expiry instant it is accepted, and one second
/// before its issue instant it is rejected as not yet valid.
pub proof fn lemma_expiry_boundary(secret: Seq<u8>, token: Seq<char>, now: i64)
    requires
        jwt_claims_of(secret, token) is Some,
        token_of_claims(jwt_claims_of(secret, token)->0) is Some,
    ensures
        ({
            let t = token_of_claims(jwt_claims_of(secret, token)->0)->0;
            &&& (t.iat <= now && t.exp == now - 1) ==> signed_verdict(secret, token, now)
                == Err::<TokenView, AuthenticationError>(AuthenticationError::Expired)
            &&& (t.iat <= now && t.exp == now) ==> signed_verdict(secret, token, now)
                == Ok::<TokenView, AuthenticationError>(t)
            &&& t.iat == now + 1 ==> signed_verdict(secret, token, now)
                == Err::<TokenView, AuthenticationError>(AuthenticationError::NotYetValid)
        }),
{
}

/// The display name a token carries for a user: its display name, or its
/// email when it has none.
pub open spec fn display_name_of(u: User) -> Seq<char> {
    match u.display_name {
        Some(d) => d@,
        None => u.email@,
    }
}

/// The claims issued for `u` at instant `now`.
pub open spec fn issued_claims(u: User, now: i64) -> Map<Seq<char>, Seq<char>> {
    Map::empty()
        .insert("iss"@, "hostsdottxt"@)
        .insert("sub"@, uuid_text_of(u.id))
        .insert("iat"@, decimal_text(now as int))
        .insert("exp"@, decimal_text(now + TOKEN_LIFETIME))
        .insert("dn"@, display_name_of(u))
        .insert("email"@, u.email@)
        .insert("admin"@, bool_text(u.admin))
}

/// The token that verification of a token issued for `u` at `now` yields.
pub open spec fn issued_token(u: User, now: i64) -> TokenView {
    TokenView {
        iss: "hostsdottxt"@,
        sub: u.id,
        iat: now,
        exp: (now + TOKEN_LIFETIME) as i64,
        dn: display_name_of(u),
        email: u.email@,
        admin: u.admin,
    }
}

proof fn lemma_claim_keys_distinct()
    ensures
        "iss"@ != "sub"@, "iss"@ != "iat"@, "iss"@ != "exp"@, "iss"@ != "dn"@, "iss"@ != "email"@,
        "iss"@ != "admin"@, "sub"@ != "iat"@, "sub"@ != "exp"@, "sub"@ != "dn"@, "sub"@ != "email"@,
        "sub"@ != "admin"@, "iat"@ != "exp"@, "iat"@ != "dn"@, "iat"@ != "email"@, "iat"@ != "admin"@,
        "exp"@ != "dn"@, "exp"@ != "email"@, "exp"@ != "admin"@, "dn"@ != "email"@, "dn"@ != "admin"@,
        "email"@ != "admin"@, "true"@ != "false"@,
{
    reveal_strlit("iss");
    reveal_strlit("sub");
    reveal_strlit("iat");
    reveal_strlit("exp");
    reveal_strlit("dn");
    reveal_strlit("email");
    reveal_strlit("admin");
    reveal_strlit("true");
    reveal_strlit("false");
    assert("iss"@[1] != "sub"@[1]);
    assert("iss"@[1] != "iat"@[1]);
    assert("iss"@[0] != "exp"@[0]);
    assert("iss"@.len() != "dn"@.len());
    assert("iss"@.len() != "email"@.len());
    assert("iss"@.len() != "admin"@.len());
    assert("sub"@[0] != "iat"@[0]);
    assert("sub"@[0] != "exp"@[0]);
    assert("sub"@.len() != "dn"@.len());
    assert("sub"@.len() != "email"@.len());
    assert("sub"@.len() != "admin"@.len());
    assert("iat"@[0] != "exp"@[0]);
    assert("iat"@.len() != "dn"@.len());
    assert("iat"@.len() != "email"@.len());
    assert("iat"@.len() != "admin"@.len());
    assert("exp"@.len() != "dn"@.len());
    assert("exp"@.len() != "email"@.len());
    assert("exp"@.len() != "admin"@.len());
    assert("dn"@.len() != "email"@.len());
    assert("dn"@.len() != "admin"@.len());
    assert("email"@[0] != "admin"@[0]);
    assert("true"@.len() != "false"@.len());
}

/// Holds the process-wide signing secret, set once at startup.
pub struct TokenCodec {
    secret: Vec<u8>,
}

impl View for TokenCodec {
    type V = Seq<u8>;

    closed spec fn view(&self) -> Seq<u8> {
        self.secret@
    }
}

impl TokenCodec {
    /// A codec keyed by the bytes of `secret`.
    pub fn new(secret: &str) -> (r: TokenCodec)
        ensures
            r@ == secret.spec_bytes(),
    {
        let secret = secret.as_bytes_vec();
        let r = TokenCodec { secret };
        assert(r@ == r.secret@);
        r
    }

    /// Issues a token for `user` at instant `now`, valid for a day.
    /// Verifying it under the same secret at any instant of that day yields
    /// the user's id, email, display name and admin flag.
    pub fn issue_at(&self, user: &User, now: i64) -> (r: String)
        requires
            now <= i64::MAX - TOKEN_LIFETIME,
        ensures
            r@ == jwt_signed_of(self@, issued_claims(*user, now)),
            !is_api_key(r@),
            forall|t: i64| now <= t <= now + TOKEN_LIFETIME
                ==> #[trigger] signed_verdict(self@, r@, t) == Ok::<TokenView, AuthenticationError>(issued_token(*user, now)),
    {
        let exp = now + TOKEN_LIFETIME;
        let sub = uuid_to_text(user.id);
        let iat_text = i64_to_text(now);
        let exp_text = i64_to_text(exp);
        let dn = match &user.display_name {
            Some(d) => d.clone(),
            None => user.email.clone(),
        };
        let admin = if user.admin {
            String::from_str("true")
        } else {
            String::from_str("false")
        };
        let mut claims: Vec<(String, String)> = Vec::new();
        claims.push((String::from_str("iss"), String::from_str("hostsdottxt")));
        claims.push((String::from_str("sub"), sub));
        claims.push((String::from_str("iat"), iat_text));
        claims.push((String::from_str("exp"), exp_text));
        claims.push((String::from_str("dn"), dn));
        claims.push((String::from_str("email"), user.email.clone()));
        claims.push((String::from_str("admin"), admin));
        proof {
            let v = claims@;
            assert(v.drop_last().drop_last().drop_last().drop_last().drop_last().drop_last().drop_last()
                =~= Seq::<(String, String)>::empty());
            reveal_with_fuel(pairs_map, 8);
            assert(pairs_map(v) =~= issued_claims(*user, now));
        }
        proof {
            lemma_claim_keys_distinct();
            reveal_strlit("iss");
            reveal_strlit("sub");
            reveal_strlit("iat");
            reveal_strlit("exp");
            reveal_strlit("dn");
            reveal_strlit("email");
            reveal_strlit("admin");
            assert(unique_keys(claims@));
        }
        let token = jwt_sign(self.secret.as_slice(), &claims);
        proof {
            let m = issued_claims(*user, now);
            lemma_claim_keys_distinct();
            lemma_i64_text_round_trip(now);
            lemma_i64_text_round_trip(exp);
            assert(m["sub"@] == uuid_text_of(user.id));
            assert(m["iat"@] == decimal_text(now as int));
            assert(m["exp"@] == decimal_text(exp as int));
            assert(m["admin"@] == bool_text(user.admin));
            assert(m["iss"@] == "hostsdottxt"@);
            assert(m["dn"@] == display_name_of(*user));
            assert(m["email"@] == user.email@);
            assert(token_of_claims(m) == Some(issued_token(*user, now)));
        }
        token.unwrap()
    }

    /// Verifies `token` at instant `now`: its tag must check, its claims
    /// must all be present and well formed, and `iat <= now <= exp`.
    pub fn verify_at(&self, token: &str, now: i64) -> (r: Result<Token, AuthenticationError>)
        ensures
            match signed_verdict(self@, token@, now) {
                Ok(t) => r is Ok && r->Ok_0@ == t,
                Err(e) => r == Err::<Token, AuthenticationError>(e),
            },
            jwt_claims_of(self@, token@) is Some ==> !is_api_key(token@),
    {
        let pairs = match jwt_verify(self.secret.as_slice(), token) {
            Some(p) => p,
            None => return Err(AuthenticationError::InvalidSignature),
        };
        let parsed = token_from_claims(&pairs);
        match parsed {
            None => Err(AuthenticationError::MalformedClaims),
            Some(t) => if t.iat > now {
                Err(AuthenticationError::NotYetValid)
            } else if t.exp < now {
                Err(AuthenticationError::Expired)
            } else {
                Ok(t)
            },
        }
    }

}

/// Reads the token that a list of claim pairs describes.
pub fn token_from_claims(pairs: &Vec<(String, String)>) -> (r: Option<Token>)
    requires
        unique_keys(pairs@),
    ensures
        match token_of_claims(pairs_map(pairs@)) {
            None => r is None,
            Some(t) => r is Some && r->0@ == t,
        },
{
    let ghost m = pairs_map(pairs@);
    let iss = claim_value(pairs, "iss");
    let sub = claim_value(pairs, "sub");
    let iat = claim_value(pairs, "iat");
    let exp = claim_value(pairs, "exp");
    let dn = claim_value(pairs, "dn");
    let email = claim_value(pairs, "email");
    let admin = claim_value(pairs, "admin");
    match (iss, sub, iat, exp, dn, email, admin) {
        (Some(iss), Some(sub), Some(iat), Some(exp), Some(dn), Some(email), Some(admin)) => {
            let sub = uuid_from_text(pairs[sub].1.as_str());
            let iat = i64_from_text(pairs[iat].1.as_str());
            let exp = i64_from_text(pairs[exp].1.as_str());
            let admin_text = pairs[admin].1.as_str();
            let admin = if text_eq(admin_text, "true") {
                Some(true)
            } else if text_eq(admin_text, "false") {
                Some(false)
            } else {
                None
            };
            match (sub, iat, exp, admin) {
                (Some(sub), Some(iat), Some(exp), Some(admin)) => Some(
                    Token {
                        iss: pairs[iss].1.clone(),
                        sub,
                        iat,
                        exp,
                        dn: pairs[dn].1.clone(),
                        email: pairs[email].1.clone(),
                        admin,
                    },
                ),
                _ => None,
            }
        },
        _ => None,
    }
}

} // verus!
