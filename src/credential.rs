//! Bearer credentials: the two accepted shapes, API key digests, and the
//! dispatch that turns a header into a principal.
use vstd::prelude::*;
use sha2::Digest;
use vstd::string::StrSliceExecFns;
use vstd::utf8::encode_utf8;
use crate::decimal::digit_char;
use crate::errors::AuthenticationError;
use crate::models::User;
use crate::text::{starts_with, text_starts_with};
use crate::token::{Token, TokenCodec, TokenView, TOKEN_LIFETIME, issued_token, signed_verdict};

verus! {

/// The lower-case hexadecimal digit of a value below 16.
pub open spec fn hex_digit(d: nat) -> char {
    if d < 10 {
        digit_char(d)
    } else if d == 10 {
        'a'
    } else if d == 11 {
        'b'
    } else if d == 12 {
        'c'
    } else if d == 13 {
        'd'
    } else if d == 14 {
        'e'
    } else {
        'f'
    }
}

/// Lower-case hexadecimal text of a byte string, two digits per byte.
pub open spec fn hex_lower(b: Seq<u8>) -> Seq<char>
    decreases b.len(),
{
    if b.len() == 0 {
        Seq::empty()
    } else {
        hex_lower(b.drop_last()) + seq![hex_digit((b.last() / 16) as nat), hex_digit((b.last() % 16) as nat)]
    }
}

/// The SHA-256 digest of a byte string.
pub uninterp spec fn sha256_of(data: Seq<u8>) -> Seq<u8>;

/// Relies on `sha2::Sha256::digest`: 32 bytes that depend on the input alone.
#[verifier::external_body]
fn sha256(data: &[u8]) -> (r: Vec<u8>)
    ensures
        r@ == sha256_of(data@),
        r@.len() == 32,
{
    sha2::Sha256::digest(data).to_vec()
}

/// Relies on `hex::encode`: two lower-case hexadecimal digits per byte,
/// high nibble first.
#[verifier::external_body]
fn hex_encode(data: &[u8]) -> (r: String)
    ensures
        r@ == hex_lower(data@),
{
    hex::encode(data)
}

/// The stored digest of a raw API key: lower-case hex of SHA-256 over its
/// UTF-8 bytes, prefix included.
pub open spec fn api_key_digest(raw: Seq<char>) -> Seq<char> {
    hex_lower(sha256_of(encode_utf8(raw)))
}

/// Computes the digest under which an API key is stored.
pub fn api_key_hash(raw: &str) -> (r: String)
    ensures
        r@ == api_key_digest(raw@),
        r@.len() == 64,
{
    let digest = sha256(raw.as_bytes());
    let r = hex_encode(digest.as_slice());
    proof {
        lemma_hex_lower_len(digest@);
    }
    r
}

/// The length of hex text is twice the number of bytes.
pub proof fn lemma_hex_lower_len(b: Seq<u8>)
    ensures
        hex_lower(b).len() == 2 * b.len(),
    decreases b.len(),
{
    if b.len() > 0 {
        lemma_hex_lower_len(b.drop_last());
    }
}

proof fn lemma_hex_digit_injective(x: nat, y: nat)
    requires
        x < 16,
        y < 16,
        hex_digit(x) == hex_digit(y),
    ensures
        x == y,
{
}

/// Distinct byte strings have distinct hex text, so two API keys share a
/// digest only where their SHA-256 digests coincide.
pub proof fn lemma_hex_lower_injective(a: Seq<u8>, b: Seq<u8>)
    requires
        hex_lower(a) == hex_lower(b),
    ensures
        a == b,
    decreases a.len(),
{
    lemma_hex_lower_len(a);
    lemma_hex_lower_len(b);
    if a.len() > 0 {
        let ha = hex_lower(a);
        let n = ha.len();
        let pa = hex_lower(a.drop_last());
        let pb = hex_lower(b.drop_last());
        lemma_hex_lower_len(a.drop_last());
        lemma_hex_lower_len(b.drop_last());
        assert(ha[n - 2] == hex_digit((a.last() / 16) as nat));
        assert(ha[n - 2] == hex_digit((b.last() / 16) as nat));
        assert(ha[n - 1] == hex_digit((a.last() % 16) as nat));
        assert(ha[n - 1] == hex_digit((b.last() % 16) as nat));
        lemma_hex_digit_injective((a.last() / 16) as nat, (b.last() / 16) as nat);
        lemma_hex_digit_injective((a.last() % 16) as nat, (b.last() % 16) as nat);
        assert(a.last() == b.last());
        assert(pa =~= ha.subrange(0, n - 2));
        assert(pb =~= ha.subrange(0, n - 2));
        lemma_hex_lower_injective(a.drop_last(), b.drop_last());
        assert(a =~= a.drop_last().push(a.last()));
        assert(b =~= b.drop_last().push(b.last()));
    } else {
        assert(a =~= b);
    }
}

/// Hashing the same raw key twice gives the same digest, and two keys with
/// different digests are different keys.
pub proof fn lemma_api_key_digest_deterministic(a: Seq<char>, b: Seq<char>)
    ensures
        a == b ==> api_key_digest(a) == api_key_digest(b),
        api_key_digest(a) != api_key_digest(b) ==> a != b,
        api_key_digest(a) == api_key_digest(b) ==> sha256_of(encode_utf8(a)) == sha256_of(encode_utf8(b)),
{
    if api_key_digest(a) == api_key_digest(b) {
        lemma_hex_lower_injective(sha256_of(encode_utf8(a)), sha256_of(encode_utf8(b)));
    }
}

/// A bearer credential, decided once from the header value.
#[derive(Debug)]
pub enum Credential {
    /// An opaque API key, carried as the digest under which it is stored.
    ApiKey(String),
    /// A signed claim token.
    SignedToken(String),
}

/// The value of an `Authorization` header with a leading `Bearer ` removed.
pub open spec fn bearer_value(h: Seq<char>) -> Seq<char> {
    if starts_with(h, "Bearer "@) {
        h.subrange(("Bearer "@).len() as int, h.len() as int)
    } else {
        h
    }
}

/// The header `Bearer ` followed by `t` carries the bearer value `t`.
pub proof fn lemma_bearer_value_of_header(t: Seq<char>)
    ensures
        bearer_value("Bearer "@ + t) == t,
{
    let h = "Bearer "@ + t;
    let p = "Bearer "@;
    assert(h.subrange(0, p.len() as int) =~= p);
    assert(h.subrange(p.len() as int, h.len() as int) =~= t);
}

/// A bearer value with this prefix is an API key.
pub open spec fn is_api_key(v: Seq<char>) -> bool {
    starts_with(v, "hdt_"@)
}

/// Decides which credential an `Authorization` header carries.
pub fn parse_credential(header: Option<&str>) -> (r: Result<Credential, AuthenticationError>)
    ensures
        match header {
            None => r == Err::<Credential, AuthenticationError>(AuthenticationError::MissingHeader),
            Some(h) => {
                let v = bearer_value(h@);
                if is_api_key(v) {
                    r matches Ok(Credential::ApiKey(d)) && d@ == api_key_digest(v) && d@.len() == 64
                } else {
                    r matches Ok(Credential::SignedToken(t)) && t@ == v
                }
            },
        },
{
    match header {
        None => Err(AuthenticationError::MissingHeader),
        Some(h) => {
            let value: &str = if text_starts_with(h, "Bearer ") {
                proof {
                    reveal_strlit("Bearer ");
                }
                h.substring_char(7, h.unicode_len())
            } else {
                h
            };
            if text_starts_with(value, "hdt_") {
                Ok(Credential::ApiKey(api_key_hash(value)))
            } else {
                Ok(Credential::SignedToken(value.to_owned()))
            }
        },
    }
}

/// The principal that an API key stands for.
pub open spec fn api_key_token(u: User) -> TokenView {
    TokenView { iss: "hostsdottxt"@, sub: u.id, iat: 0, exp: 0, dn: u.email@, email: u.email@, admin: u.admin }
}

/// The next step of authenticating a request, as mathematical values.
pub enum AuthView {
    Authenticated(TokenView),
    Rejected(AuthenticationError),
    LookupApiKey(Seq<char>),
}

/// The text of an optional header.
pub open spec fn header_view(header: Option<&str>) -> Option<Seq<char>> {
    match header {
        None => None,
        Some(h) => Some(h@),
    }
}

/// What authenticating a request whose `Authorization` header is `header`
/// yields at instant `now` under the codec secret `secret`.
pub open spec fn authentication_of(secret: Seq<u8>, header: Option<Seq<char>>, now: i64) -> AuthView {
    match header {
        None => AuthView::Rejected(AuthenticationError::MissingHeader),
        Some(h) => {
            let v = bearer_value(h);
            if is_api_key(v) {
                AuthView::LookupApiKey(api_key_digest(v))
            } else {
                match signed_verdict(secret, v, now) {
                    Ok(t) => AuthView::Authenticated(t),
                    Err(e) => AuthView::Rejected(e),
                }
            }
        },
    }
}

/// A token that is not an API key, presented as `Bearer <token>`, is judged
/// exactly as `TokenCodec::verify_at` judges it: accepted with its claims,
/// or rejected with the same error (expired, not yet valid, a failed tag
/// check, malformed claims), and never sent to the key lookup.
pub proof fn lemma_signed_token_through_header(secret: Seq<u8>, token: Seq<char>, now: i64)
    requires
        !is_api_key(token),
    ensures
        authentication_of(secret, Some("Bearer "@ + token), now) == match signed_verdict(secret, token, now) {
            Ok(t) => AuthView::Authenticated(t),
            Err(e) => AuthView::Rejected(e),
        },
{
    lemma_bearer_value_of_header(token);
}

/// A token with the guarantees that `TokenCodec::issue_at(u, t0)` gives its
/// result, presented as `Bearer <token>` at any instant of the following
/// day, authenticates as `u`: same subject, email and admin flag, issuer
/// `hostsdottxt`, issued at `t0` and expiring a day later.
pub proof fn lemma_issued_token_round_trip(secret: Seq<u8>, u: User, t0: i64, token: Seq<char>, now: i64)
    requires
        t0 <= i64::MAX - TOKEN_LIFETIME,
        t0 <= now <= t0 + TOKEN_LIFETIME,
        !is_api_key(token),
        forall|t: i64| t0 <= t <= t0 + TOKEN_LIFETIME
            ==> #[trigger] signed_verdict(secret, token, t) == Ok::<TokenView, AuthenticationError>(issued_token(u, t0)),
    ensures
        authentication_of(secret, Some("Bearer "@ + token), now) == AuthView::Authenticated(issued_token(u, t0)),
        issued_token(u, t0).sub == u.id,
        issued_token(u, t0).email == u.email@,
        issued_token(u, t0).admin == u.admin,
        issued_token(u, t0).iss == "hostsdottxt"@,
        issued_token(u, t0).iat == t0,
        issued_token(u, t0).exp == t0 + TOKEN_LIFETIME,
{
    lemma_signed_token_through_header(secret, token, now);
    assert(signed_verdict(secret, token, now) == Ok::<TokenView, AuthenticationError>(issued_token(u, t0)));
}

/// The next step of authenticating a request.
#[derive(Debug)]
pub enum AuthStep {
    /// The credential was accepted.
    Authenticated(Jwt),
    /// The credential was rejected.
    Rejected(AuthenticationError),
    /// The storage collaborator must look up the unexpired API key stored
    /// under this digest, then hand the result to `Jwt::from_api_key_user`.
    LookupApiKey(String),
}

impl View for AuthStep {
    type V = AuthView;

    open spec fn view(&self) -> AuthView {
        match self {
            AuthStep::Authenticated(j) => AuthView::Authenticated(j.0@),
            AuthStep::Rejected(e) => AuthView::Rejected(*e),
            AuthStep::LookupApiKey(d) => AuthView::LookupApiKey(d@),
        }
    }
}

/// An authenticated principal extracted from a request.
#[derive(Debug)]
pub struct Jwt(pub Token);

impl Jwt {
    /// Authenticates a request from its `Authorization` header at instant
    /// `now`: a signed token is verified here; an API key needs a lookup.
    pub fn authenticate(codec: &TokenCodec, header: Option<&str>, now: i64) -> (r: AuthStep)
        ensures
            r@ == authentication_of(codec@, header_view(header), now),
            r matches AuthStep::LookupApiKey(d) ==> d@.len() == 64,
    {
        match parse_credential(header) {
            Err(e) => AuthStep::Rejected(e),
            Ok(Credential::ApiKey(digest)) => AuthStep::LookupApiKey(digest),
            Ok(Credential::SignedToken(token)) => match codec.verify_at(token.as_str(), now) {
                Ok(t) => AuthStep::Authenticated(Jwt(t)),
                Err(e) => AuthStep::Rejected(e),
            },
        }
    }

    /// Completes API key authentication from what the key lookup found:
    /// a user whose key is stored under the digest and has not expired.
    pub fn from_api_key_user(found: Option<&User>) -> (r: Result<Jwt, AuthenticationError>)
        ensures
            match found {
                None => r == Err::<Jwt, AuthenticationError>(AuthenticationError::UnknownApiKey),
                Some(u) => r is Ok && r->Ok_0.0@ == api_key_token(*u),
            },
    {
        match found {
            None => Err(AuthenticationError::UnknownApiKey),
            Some(u) => {
                proof {
                    reveal_strlit("hostsdottxt");
                }
                Ok(
                    Jwt(
                        Token {
                            iss: String::from_str("hostsdottxt"),
                            sub: u.id,
                            iat: 0,
                            exp: 0,
                            dn: u.email.clone(),
                            email: u.email.clone(),
                            admin: u.admin,
                        },
                    ),
                )
            },
        }
    }
}

} // verus!
