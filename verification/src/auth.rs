use vstd::prelude::*;

use crate::config::AuthConfig;
use crate::decimal::{i64_to_string, int_dec, parse_i32};
use crate::models::{Credential, FetchOutcome};
use crate::security::{spec_verifier, verify_password};

verus! {

/// Seconds of leeway granted when a token's expiry is checked, matching the
/// verifier's default tolerance for clock skew.
pub const TOKEN_LEEWAY: i64 = 60;

/// Validity of a freshly minted access token, in seconds (one day).
pub const ACCESS_VALIDITY_SECS: i64 = 86400;

/// Validity of a freshly minted refresh token, in seconds (thirty days).
pub const REFRESH_VALIDITY_SECS: i64 = 2592000;

/// The body of a login request: the employee's email and password.
pub struct LoginRequest {
    pub email: String,
    pub password: String,
}

/// The body of a successful login or refresh: a short-lived access token
/// and a long-lived refresh token.
#[derive(Debug)]
pub struct LoginResponse {
    pub access_token: String,
    pub refresh_token: String,
}

impl LoginResponse {
    /// Pairs the two freshly minted tokens.
    pub fn new(access_token: String, refresh_token: String) -> (r: Self)
        ensures
            r.access_token == access_token,
            r.refresh_token == refresh_token,
    {
        Self { access_token, refresh_token }
    }
}

/// The body of a refresh request: the refresh token the client holds.
pub struct RefreshRequest {
    pub refresh_token: String,
}

/// A token's claims: the subject (the employee identifier, string-encoded)
/// and the absolute expiry timestamp in seconds.
pub struct Claims {
    pub sub: String,
    pub exp: i64,
}

/// Everything that can go wrong while logging in, refreshing, or passing
/// the authentication gate.
#[derive(Debug, PartialEq, Eq, Structural)]
pub enum LoginError {
    /// Unknown email, wrong password, or an unverifiable or expired token.
    InvalidCredentials,
    /// Empty email, password or refresh token.
    MissingCredentials,
    /// An unexpected persistence failure, never detailed to the client.
    DatabaseError,
    /// Signing a fresh token failed.
    TokenCreation,
    /// No usable bearer credential accompanied the request.
    InvalidToken,
}

impl LoginError {
    /// The HTTP status code the error is answered with.
    pub fn status_code(&self) -> (r: u16)
        ensures
            r == match self {
                LoginError::InvalidCredentials => 401u16,
                LoginError::InvalidToken => 401u16,
                LoginError::MissingCredentials => 400u16,
                LoginError::DatabaseError => 500u16,
                LoginError::TokenCreation => 500u16,
            },
    {
        match self {
            LoginError::InvalidCredentials => 401,
            LoginError::InvalidToken => 401,
            LoginError::MissingCredentials => 400,
            LoginError::DatabaseError => 500,
            LoginError::TokenCreation => 500,
        }
    }

    /// The plain-text message the error is answered with.  Storage and
    /// signing failures stay opaque to the client.
    pub fn error_message(&self) -> (r: &'static str)
        ensures
            self is InvalidCredentials ==> r@ == "Invalid email or password"@,
            self is InvalidToken ==> r@ == "Invalid Token"@,
            self is MissingCredentials ==> r@ == "Missing email or password"@,
            self is DatabaseError ==> r@ == "An unexpected error occurred"@,
            self is TokenCreation ==> r@
                == "An unexpected error occurred while creating the token"@,
    {
        match self {
            LoginError::InvalidCredentials => "Invalid email or password",
            LoginError::InvalidToken => "Invalid Token",
            LoginError::MissingCredentials => "Missing email or password",
            LoginError::DatabaseError => "An unexpected error occurred",
            LoginError::TokenCreation => "An unexpected error occurred while creating the token",
        }
    }

    /// The bearer challenge attached to 401-class rejections, and to no
    /// other answer.
    pub fn www_authenticate(&self) -> (r: Option<&'static str>)
        ensures
            r is Some <==> (self is InvalidCredentials || self is InvalidToken),
            r matches Some(c) ==> c@ == "Bearer realm=\"Application\", charset=\"UTF-8\""@,
    {
        match self {
            LoginError::InvalidCredentials => Some(
                "Bearer realm=\"Application\", charset=\"UTF-8\"",
            ),
            LoginError::InvalidToken => Some("Bearer realm=\"Application\", charset=\"UTF-8\""),
            _ => None,
        }
    }
}

/// The signed token that the process signing key produces over a subject
/// and an expiry.  The token is a pure function of claims and key under
/// this build's pure-Rust signing provider, which is pinned as the
/// process-wide default and never replaced; nothing is assumed about the
/// token's shape.
pub uninterp spec fn jwt_of(sub: Seq<char>, exp: int, key: Seq<char>) -> Seq<char>;

/// The claims carried in a token's payload, read back from the token text
/// alone, or nothing where the text is not a well-formed token.
pub uninterp spec fn jwt_claims_of(token: Seq<char>) -> Option<(Seq<char>, i64)>;

/// Relies on jsonwebtoken::encode with the default HS256 header: the signed
/// token is a pure function of the claims and the key, and its payload
/// carries exactly the subject and expiry it was built from.  Signing never
/// fails here: the key family matches HS256, an HMAC key of any length is
/// accepted, serializing the string-keyed claims map is infallible, and the
/// pure-Rust HMAC signer this crate pins as the crypto provider always
/// returns a signature.
#[verifier::external_body]
fn jwt_encode(sub: &str, exp: i64, key: &str) -> (r: Option<String>)
    requires
        exp >= 0,
    ensures
        r is Some,
        r matches Some(t) ==> t@ == jwt_of(sub@, exp as int, key@),
        r matches Some(t) ==> jwt_claims_of(t@) == Some((sub@, exp)),
        r matches Some(t) ==> t@.len() > 0,
{
    let mut claims = serde_json::Map::new();
    claims.insert("sub".to_string(), serde_json::Value::String(sub.to_string()));
    claims.insert("exp".to_string(), serde_json::Value::Number(exp.into()));
    jsonwebtoken::encode(
        &jsonwebtoken::Header::default(),
        &serde_json::Value::Object(claims),
        &jsonwebtoken::EncodingKey::from_secret(key.as_bytes()),
    )
        .ok()
}

/// Holds when a decode outcome is right for every token this crate's
/// signing key could have produced: a token signed with `key` over any
/// subject and non-negative expiry decodes back to exactly those claims.
pub open spec fn decode_covers_signed(token: Seq<char>, key: Seq<char>, r: Option<Claims>) -> bool {
    forall|sub: Seq<char>, exp: i64|
        exp >= 0 && token == jwt_of(sub, exp as int, key) ==> (r matches Some(c) && c.sub@ == sub
            && c.exp == exp)
}

/// Relies on jsonwebtoken::decode with HS256, the expiry check turned off
/// and every other default kept: on success the returned claims are read
/// from the token's payload alone, and a token that jsonwebtoken::encode
/// built with the same key always decodes back to the claims it carries.
#[verifier::external_body]
fn jwt_decode(token: &str, key: &str) -> (r: Option<Claims>)
    ensures
        r matches Some(c) ==> jwt_claims_of(token@) == Some((c.sub@, c.exp)),
        decode_covers_signed(token@, key@, r),
{
    let mut validation = jsonwebtoken::Validation::default();
    validation.validate_exp = false;
    let data = jsonwebtoken::decode::<serde_json::Value>(
        token,
        &jsonwebtoken::DecodingKey::from_secret(key.as_bytes()),
        &validation,
    ).ok()?;
    let sub = data.claims.get("sub")?.as_str()?.to_string();
    let exp = data.claims.get("exp")?.as_i64()?;
    Some(Claims { sub, exp })
}

/// Mints a signed token for the given subject, expiring `validity` seconds
/// from now.  Minting always succeeds: the signer behind it has no failure
/// path, so the token-creation error of the taxonomy is never produced
/// here.
pub fn issue_token(sub: &str, validity: i64, key: &str, now: i64) -> (r: Result<
    String,
    LoginError,
>)
    requires
        0 <= now,
        0 <= validity,
        now + validity <= i64::MAX,
    ensures
        r is Ok,
        r matches Ok(t) ==> t@ == jwt_of(sub@, now + validity, key@) && jwt_claims_of(t@) == Some(
            (sub@, (now + validity) as i64),
        ) && t@.len() > 0,
{
    match jwt_encode(sub, now + validity, key) {
        Some(t) => Ok(t),
        None => Err(LoginError::TokenCreation),
    }
}

/// Checks a token against the signing key at time `now`: the signature is
/// checked first, then the expiry, and either failure yields the same
/// rejection.
///
/// The contract carries the issue/verify round trip: a token signed with
/// this key over any subject and a non-negative expiry is accepted exactly
/// as long as its expiry, plus leeway, has not passed — so a token checked
/// right after it was issued is accepted, and any token whose payload has
/// expired is rejected.
pub fn verify_token(token: &str, key: &str, now: i64) -> (r: Option<Claims>)
    requires
        0 <= now,
    ensures
        r matches Some(c) ==> jwt_claims_of(token@) == Some((c.sub@, c.exp)) && c.exp >= now
            - TOKEN_LEEWAY,
        forall|sub: Seq<char>, exp: i64|
            (0 <= exp && token@ == jwt_of(sub, exp as int, key@)) ==> ((exp >= now - TOKEN_LEEWAY ==> (
            r matches Some(c) && c.sub@ == sub && c.exp == exp)) && (exp < now - TOKEN_LEEWAY
                ==> r is None)),
        (jwt_claims_of(token@) matches Some(p) && p.1 < now - TOKEN_LEEWAY) ==> r is None,
{
    match jwt_decode(token, key) {
        Some(claims) => {
            if claims.exp >= now - TOKEN_LEEWAY {
                Some(claims)
            } else {
                None
            }
        },
        None => None,
    }
}

/// Mints the access/refresh token pair for an employee: both subjects are
/// the decimal rendering of the employee id, the access token expires one
/// day from now and the refresh token thirty days from now.  The pair is
/// always minted: signing has no failure path.
pub fn create_login_response(employee_id: i32, config: &AuthConfig, now: i64) -> (r: Result<
    LoginResponse,
    LoginError,
>)
    requires
        0 <= now,
        now + REFRESH_VALIDITY_SECS <= i64::MAX,
    ensures
        r is Ok,
        r matches Ok(resp) ==> resp.access_token@ == jwt_of(
            int_dec(employee_id as int),
            now + ACCESS_VALIDITY_SECS,
            config.jwt_secret@,
        ) && resp.refresh_token@ == jwt_of(
            int_dec(employee_id as int),
            now + REFRESH_VALIDITY_SECS,
            config.jwt_secret@,
        ),
{
    let sub = i64_to_string(employee_id as i64);
    let access_token = match issue_token(
        sub.as_str(),
        ACCESS_VALIDITY_SECS,
        config.jwt_secret.as_str(),
        now,
    ) {
        Ok(t) => t,
        Err(e) => {
            return Err(e);
        },
    };
    let refresh_token = match issue_token(
        sub.as_str(),
        REFRESH_VALIDITY_SECS,
        config.jwt_secret.as_str(),
        now,
    ) {
        Ok(t) => t,
        Err(e) => {
            return Err(e);
        },
    };
    Ok(LoginResponse::new(access_token, refresh_token))
}

/// Decides a login attempt.
///
/// An empty email or password is rejected as missing credentials, whatever
/// the store said.  A missing credential row is folded into the same
/// invalid-credentials outcome as a wrong password, so that account
/// existence is never confirmed; a storage fault surfaces as the opaque
/// database error.  With a matching password the token pair is minted for
/// the employee on the fetched row.
pub fn login(payload: &LoginRequest, fetch: &FetchOutcome, config: &AuthConfig, now: i64) -> (r:
    Result<LoginResponse, LoginError>)
    requires
        config.wf(),
        0 <= now,
        now + REFRESH_VALIDITY_SECS <= i64::MAX,
    ensures
        (payload.email@.len() == 0 || payload.password@.len() == 0) <==> r == Err::<
            LoginResponse,
            LoginError,
        >(LoginError::MissingCredentials),
        payload.email@.len() > 0 && payload.password@.len() > 0 ==> match fetch {
            FetchOutcome::NotFound => r == Err::<LoginResponse, LoginError>(
                LoginError::InvalidCredentials,
            ),
            FetchOutcome::StorageFailure => r == Err::<LoginResponse, LoginError>(
                LoginError::DatabaseError,
            ),
            FetchOutcome::Found(cred) => {
                let reproduced = spec_verifier(
                    payload.password@,
                    cred.spec_salt(),
                    config.pepper@,
                    config.keychain_number as nat,
                );
                &&& reproduced != cred.password_hash@ ==> r == Err::<LoginResponse, LoginError>(
                    LoginError::InvalidCredentials,
                )
                &&& reproduced == cred.password_hash@ ==> {
                    &&& r is Ok
                    &&& r matches Ok(resp) ==> resp.access_token@ == jwt_of(
                        int_dec(cred.employee_id as int),
                        now + ACCESS_VALIDITY_SECS,
                        config.jwt_secret@,
                    ) && resp.refresh_token@ == jwt_of(
                        int_dec(cred.employee_id as int),
                        now + REFRESH_VALIDITY_SECS,
                        config.jwt_secret@,
                    )
                }
            },
        },
{
    if payload.email.as_str().is_empty() || payload.password.as_str().is_empty() {
        return Err(LoginError::MissingCredentials);
    }
    match fetch {
        FetchOutcome::NotFound => Err(LoginError::InvalidCredentials),
        FetchOutcome::StorageFailure => Err(LoginError::DatabaseError),
        FetchOutcome::Found(cred) => {
            if !verify_password(payload.password.as_str(), cred, config) {
                return Err(LoginError::InvalidCredentials);
            }
            create_login_response(cred.employee_id, config, now)
        },
    }
}

/// Decides a refresh attempt.
///
/// An empty refresh token is rejected as missing credentials.  A token that
/// does not verify, has expired, or whose subject is not the canonical
/// rendering of an employee id is rejected as invalid credentials.  On
/// success a fresh access token is minted while the refresh token is handed
/// back unchanged: refresh tokens are deliberately not rotated and stay
/// valid until their natural expiry.
pub fn refresh(request: &RefreshRequest, config: &AuthConfig, now: i64) -> (r: Result<
    LoginResponse,
    LoginError,
>)
    requires
        0 <= now,
        now + REFRESH_VALIDITY_SECS <= i64::MAX,
    ensures
        request.refresh_token@.len() == 0 <==> r == Err::<LoginResponse, LoginError>(
            LoginError::MissingCredentials,
        ),
        r matches Ok(resp) ==> exists|id: i32, exp: i64|
            jwt_claims_of(request.refresh_token@) == Some((int_dec(id as int), exp)) && exp >= now
                - TOKEN_LEEWAY && resp.access_token@ == jwt_of(
                int_dec(id as int),
                now + ACCESS_VALIDITY_SECS,
                config.jwt_secret@,
            ) && resp.refresh_token@ == request.refresh_token@,
        forall|id: i32, exp: i64|
            (request.refresh_token@.len() > 0 && 0 <= exp && request.refresh_token@ == jwt_of(
                int_dec(id as int),
                exp as int,
                config.jwt_secret@,
            ) && exp >= now - TOKEN_LEEWAY) ==> r is Ok,
        (request.refresh_token@.len() > 0 && (jwt_claims_of(request.refresh_token@) matches Some(p)
            && p.1 < now - TOKEN_LEEWAY)) ==> r == Err::<LoginResponse, LoginError>(
            LoginError::InvalidCredentials,
        ),
        (request.refresh_token@.len() > 0 && (jwt_claims_of(request.refresh_token@) matches Some(p)
            && (forall|id: i32| p.0 != int_dec(id as int)))) ==> r == Err::<
            LoginResponse,
            LoginError,
        >(LoginError::InvalidCredentials),
        r is Err ==> (r == Err::<LoginResponse, LoginError>(LoginError::MissingCredentials) || r
            == Err::<LoginResponse, LoginError>(LoginError::InvalidCredentials)),
{
    if request.refresh_token.as_str().is_empty() {
        return Err(LoginError::MissingCredentials);
    }
    let claims = match verify_token(
        request.refresh_token.as_str(),
        config.jwt_secret.as_str(),
        now,
    ) {
        Some(c) => c,
        None => {
            return Err(LoginError::InvalidCredentials);
        },
    };
    let employee_id = match parse_i32(claims.sub.as_str()) {
        Some(id) => id,
        None => {
            return Err(LoginError::InvalidCredentials);
        },
    };
    match create_login_response(employee_id, config, now) {
        Ok(resp) => Ok(
            LoginResponse::new(resp.access_token, request.refresh_token.clone()),
        ),
        Err(e) => Err(e),
    }
}

/// Whether a header value opens with the bearer scheme the way the
/// original gate matched it: six characters spelling `bearer` in any ASCII
/// case, then one space.
pub open spec fn bearer_scheme_ok(header: Seq<char>) -> bool {
    header.len() > 6 && (header[0] == 'B' || header[0] == 'b') && (header[1] == 'E' || header[1]
        == 'e') && (header[2] == 'A' || header[2] == 'a') && (header[3] == 'R' || header[3] == 'r')
        && (header[4] == 'E' || header[4] == 'e') && (header[5] == 'R' || header[5] == 'r')
        && header[6] == ' '
}

/// Whether a character is a blank a header value may hold: a space or a
/// horizontal tab.
pub open spec fn is_blank(c: char) -> bool {
    c == ' ' || c == '\t'
}

/// The number of blanks a sequence opens with.
pub open spec fn leading_blanks(s: Seq<char>) -> nat
    decreases s.len(),
{
    if s.len() == 0 {
        0
    } else if is_blank(s[0]) {
        1 + leading_blanks(s.drop_first())
    } else {
        0
    }
}

/// The bearer token carried by an authorization header value: the scheme
/// is matched case-insensitively and the blanks before the token are
/// skipped, as the original gate's header parsing had it.
pub open spec fn bearer_of(header: Seq<char>) -> Option<Seq<char>> {
    if bearer_scheme_ok(header) {
        let rest = header.skip(7);
        Option::Some(rest.skip(leading_blanks(rest) as int))
    } else {
        Option::None
    }
}

/// A sequence whose first `k` characters are blanks, and whose character
/// `k` — if any — is not, opens with exactly `k` blanks.
proof fn lemma_leading_blanks_count(s: Seq<char>, k: int)
    requires
        0 <= k <= s.len(),
        forall|j: int| 0 <= j < k ==> is_blank(#[trigger] s[j]),
        k == s.len() || !is_blank(s[k]),
    ensures
        leading_blanks(s) == k,
    decreases k,
{
    if k == 0 {
    } else {
        assert(is_blank(s[0]));
        lemma_leading_blanks_count(s.drop_first(), k - 1);
    }
}

/// Extracts the bearer token from an authorization header value.
pub fn extract_bearer(header: &str) -> (r: Option<&str>)
    ensures
        match bearer_of(header@) {
            Option::Some(t) => r matches Some(rt) && rt@ == t,
            Option::None => r is None,
        },
{
    let len = header.unicode_len();
    if len < 7 {
        return None;
    }
    let c0 = header.get_char(0);
    let c1 = header.get_char(1);
    let c2 = header.get_char(2);
    let c3 = header.get_char(3);
    let c4 = header.get_char(4);
    let c5 = header.get_char(5);
    if !((c0 == 'B' || c0 == 'b') && (c1 == 'E' || c1 == 'e') && (c2 == 'A' || c2 == 'a') && (c3
        == 'R' || c3 == 'r') && (c4 == 'E' || c4 == 'e') && (c5 == 'R' || c5 == 'r')
        && header.get_char(6) == ' ') {
        return None;
    }
    let mut start: usize = 7;
    while start < len && (header.get_char(start) == ' ' || header.get_char(start) == '\t')
        invariant
            7 <= start <= len,
            len == header@.len(),
            forall|j: int| 7 <= j < start ==> is_blank(#[trigger] header@[j]),
        decreases len - start,
    {
        start = start + 1;
    }
    let token = header.substring_char(start, len);
    proof {
        let rest = header@.skip(7);
        assert(forall|j: int| 0 <= j < start - 7 ==> is_blank(#[trigger] rest[j]));
        assert(start - 7 == rest.len() || !is_blank(rest[start - 7]));
        lemma_leading_blanks_count(rest, start - 7);
        assert(token@ =~= rest.skip(leading_blanks(rest) as int));
    }
    Some(token)
}

/// The authentication gate, run before any protected handler: the bearer
/// token is taken from the authorization header and verified, and on
/// success the verified subject is handed to the rest of the request
/// pipeline.  A missing or malformed header is rejected as an invalid
/// token; a token that does not verify is rejected as invalid credentials;
/// no handler ever observes a request that was not accepted here.
pub fn auth(authorization: Option<&String>, config: &AuthConfig, now: i64) -> (r: Result<
    String,
    LoginError,
>)
    requires
        0 <= now,
    ensures
        match authorization {
            Option::None => r == Err::<String, LoginError>(LoginError::InvalidToken),
            Option::Some(h) => match bearer_of(h@) {
                Option::None => r == Err::<String, LoginError>(LoginError::InvalidToken),
                Option::Some(t) => {
                    &&& r matches Ok(sub) ==> jwt_claims_of(t) matches Some(p) && p.0 == sub@
                        && p.1 >= now - TOKEN_LEEWAY
                    &&& (jwt_claims_of(t) matches Some(p) && p.1 < now - TOKEN_LEEWAY) ==> r
                        == Err::<String, LoginError>(LoginError::InvalidCredentials)
                    &&& forall|s2: Seq<char>, e2: i64|
                        (0 <= e2 && t == jwt_of(s2, e2 as int, config.jwt_secret@) && e2 >= now
                            - TOKEN_LEEWAY) ==> (r matches Ok(sub) && sub@ == s2)
                    &&& r is Err ==> (r == Err::<String, LoginError>(
                        LoginError::InvalidCredentials,
                    ))
                },
            },
        },
{
    let header = match authorization {
        Some(h) => h,
        None => {
            return Err(LoginError::InvalidToken);
        },
    };
    let token = match extract_bearer(header.as_str()) {
        Some(t) => t,
        None => {
            return Err(LoginError::InvalidToken);
        },
    };
    match verify_token(token, config.jwt_secret.as_str(), now) {
        Some(claims) => Ok(claims.sub),
        None => Err(LoginError::InvalidCredentials),
    }
}

} // verus!
