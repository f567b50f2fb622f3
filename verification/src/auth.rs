//! Account rules: user names, passwords, bearer tokens and password hashes.

use vstd::prelude::*;
use vstd::string::StringSliceAdditionalSpecFns;


use crate::status::HttpStatus;
use crate::text::{same_chars, chars_of, starts_with, starts_with_chars, string_of_range, trimmed, has_char, is_ascii_alnum, is_ascii_alnum_char, lemma_utf8_len_at_least_len, lemma_utf8_len_push, trim, trimmed_chars, utf8_len, utf8_len_of};

use std::collections::BTreeMap;
use serde_json::Value;
use jsonwebtoken::{DecodingKey, EncodingKey, Header, Validation};

verus! {

broadcast use vstd::string::group_string_axioms;

// ---------------------------------------------------------------------------
// Request and response records
// ---------------------------------------------------------------------------

/// The claims carried by a session token.
pub struct Claims {
    pub sub: String,
    pub username: String,
    pub exp: usize,
}

pub struct RegisterRequest {
    pub username: String,
    pub password: String,
}

pub struct LoginRequest {
    pub login: String,
    pub password: String,
}

pub struct UserInfo {
    pub id: String,
    pub username: String,
    pub email: Option<String>,
    pub avatar_url: Option<String>,
}

pub struct GoogleAuthRequest {
    pub credential: String,
}

pub struct AuthConfigResponse {
    pub google_client_id: Option<String>,
    pub google_auth_enabled: bool,
}

pub struct AuthResponse {
    pub token: String,
    pub user: UserInfo,
}

// ---------------------------------------------------------------------------
// User names
// ---------------------------------------------------------------------------

pub const USERNAME_REQUIRED: &'static str = "Имя пользователя обязательно для заполнения";

pub const USERNAME_HAS_SPACES: &'static str = "Имя пользователя не должно содержать пробелы";

pub const USERNAME_TOO_SHORT: &'static str = "Имя пользователя должно содержать не менее 3 символов";

pub const USERNAME_TOO_LONG: &'static str = "Имя пользователя не должно превышать 30 символов";

pub const USERNAME_BAD_CHARS: &'static str =
    "Имя пользователя может содержать только латинские буквы, цифры, '_' и '-'";

/// A character allowed in a user name: ASCII letter or digit, `_` or `-`.
pub open spec fn is_name_char(c: char) -> bool {
    is_ascii_alnum(c) || c == '_' || c == '-'
}

/// The message `validate_username` answers for the (untrimmed) name `u`,
/// rules checked in order; `None` when the name is accepted.
pub open spec fn username_problem(u: Seq<char>) -> Option<&'static str> {
    let t = trim(u);
    if t.len() == 0 {
        Some(USERNAME_REQUIRED)
    } else if t.contains(' ') || t.contains('\t') || t.contains('\n') {
        Some(USERNAME_HAS_SPACES)
    } else if utf8_len(t) < 3 {
        Some(USERNAME_TOO_SHORT)
    } else if utf8_len(t) > 30 {
        Some(USERNAME_TOO_LONG)
    } else if !(forall|i: int| 0 <= i < t.len() ==> is_name_char(#[trigger] t[i])) {
        Some(USERNAME_BAD_CHARS)
    } else {
        None
    }
}

/// Checks a requested user name; the name is judged after trimming.
pub fn validate_username(username: &str) -> (r: Result<(), &'static str>)
    ensures
        r == (match username_problem(username@) {
            None => Ok::<(), &'static str>(()),
            Some(m) => Err(m),
        }),
{
    let t = trimmed_chars(username);
    if t.len() == 0 {
        return Err(USERNAME_REQUIRED);
    }
    if has_char(&t, ' ') || has_char(&t, '\t') || has_char(&t, '\n') {
        return Err(USERNAME_HAS_SPACES);
    }
    if t.len() > 30 {
        // every character takes at least one byte
        proof {
            lemma_utf8_len_at_least_len(t@);
        }
        return Err(USERNAME_TOO_LONG);
    }
    let n = utf8_len_of(&t);
    if n < 3 {
        return Err(USERNAME_TOO_SHORT);
    }
    if n > 30 {
        return Err(USERNAME_TOO_LONG);
    }
    let mut i: usize = 0;
    while i < t.len()
        invariant
            i <= t.len(),
            t@ == trim(username@),
            t@.len() > 0,
            3 <= utf8_len(t@) <= 30,
            !t@.contains(' ') && !t@.contains('\t') && !t@.contains('\n'),
            forall|k: int| 0 <= k < i ==> is_name_char(#[trigger] t@[k]),
        decreases t.len() - i,
    {
        let c = t[i];
        if !(is_ascii_alnum_char(c) || c == '_' || c == '-') {
            assert(!is_name_char(t@[i as int]));
            return Err(USERNAME_BAD_CHARS);
        }
        i = i + 1;
    }
    Ok(())
}

// ---------------------------------------------------------------------------
// Passwords
// ---------------------------------------------------------------------------

pub const PASSWORD_REQUIRED: &'static str = "Пароль обязателен для заполнения";

pub const PASSWORD_TOO_SHORT: &'static str = "Пароль должен содержать не менее 6 символов";

pub const PASSWORD_TOO_LONG: &'static str = "Пароль не должен превышать 72 символа";

/// The message `validate_password` answers for `p`; `None` when accepted.
/// Lengths are UTF-8 byte counts of the trimmed password.
pub open spec fn password_problem(p: Seq<char>) -> Option<&'static str> {
    let t = trim(p);
    if t.len() == 0 {
        Some(PASSWORD_REQUIRED)
    } else if utf8_len(t) < 6 {
        Some(PASSWORD_TOO_SHORT)
    } else if utf8_len(t) > 72 {
        Some(PASSWORD_TOO_LONG)
    } else {
        None
    }
}

/// Checks a requested password; the password is judged after trimming.
pub fn validate_password(password: &str) -> (r: Result<(), &'static str>)
    ensures
        r == (match password_problem(password@) {
            None => Ok::<(), &'static str>(()),
            Some(m) => Err(m),
        }),
{
    let t = trimmed_chars(password);
    if t.len() == 0 {
        return Err(PASSWORD_REQUIRED);
    }
    if t.len() > 72 {
        proof {
            lemma_utf8_len_at_least_len(t@);
        }
        return Err(PASSWORD_TOO_LONG);
    }
    let n = utf8_len_of(&t);
    if n < 6 {
        return Err(PASSWORD_TOO_SHORT);
    }
    if n > 72 {
        return Err(PASSWORD_TOO_LONG);
    }
    Ok(())
}

// ---------------------------------------------------------------------------
// Session tokens
// ---------------------------------------------------------------------------

/// Lifetime of a session token: thirty days, in seconds.
pub const SESSION_TTL_SECS: u64 = 2592000;

/// The claims of a session token issued at `now_secs` (UNIX seconds).
pub fn session_claims(user_id: &str, username: &str, now_secs: u64) -> (c: Claims)
    requires
        now_secs + SESSION_TTL_SECS <= usize::MAX,
    ensures
        c.sub@ == user_id@,
        c.username@ == username@,
        c.exp == now_secs + SESSION_TTL_SECS,
{
    Claims {
        sub: user_id.to_owned(),
        username: username.to_owned(),
        exp: (now_secs + SESSION_TTL_SECS) as usize,
    }
}

pub open spec fn bearer_prefix() -> Seq<char> {
    "Bearer "@
}

/// The token carried by an `Authorization` header value: the part after
/// `"Bearer "` when the value starts with it, else the whole value.
pub open spec fn bearer_token(h: Seq<char>) -> Seq<char> {
    if starts_with(h, bearer_prefix()) {
        h.skip(bearer_prefix().len() as int)
    } else {
        h
    }
}

pub fn token_from_authorization(header: &str) -> (r: String)
    ensures
        r@ == bearer_token(header@),
{
    let h = chars_of(header);
    let p = chars_of("Bearer ");
    if starts_with_chars(&h, &p) {
        let r = string_of_range(&h, p.len(), h.len());
        assert(h@.subrange(p@.len() as int, h@.len() as int) == h@.skip(p@.len() as int));
        r
    } else {
        string_of_range_all(&h)
    }
}

fn string_of_range_all(h: &Vec<char>) -> (r: String)
    ensures
        r@ == h@,
{
    let r = string_of_range(h, 0, h.len());
    assert(h@.subrange(0, h@.len() as int) == h@);
    r
}

/// Why a request carried no usable session token.
#[derive(PartialEq, Eq, Structural, Clone, Copy, Debug)]
pub enum TokenProblem {
    MissingHeader,
    InvalidToken,
}

impl TokenProblem {
    /// The message text of each problem.
    pub open spec fn text(self) -> Seq<char> {
        match self {
            TokenProblem::MissingHeader => "Missing Authorization header"@,
            TokenProblem::InvalidToken => "Invalid or expired token"@,
        }
    }

    /// The status and message a request is answered with.
    pub fn message(&self) -> (r: (HttpStatus, &'static str))
        ensures
            r.0 == HttpStatus::Unauthorized,
            r.1@ == self.text(),
    {
        match self {
            TokenProblem::MissingHeader => (HttpStatus::Unauthorized, "Missing Authorization header"),
            TokenProblem::InvalidToken => (HttpStatus::Unauthorized, "Invalid or expired token"),
        }
    }
}

/// The token to verify for a request with the given `Authorization`
/// value (`None` when the header is absent or not text).
pub fn token_for_request(authorization: Option<&str>) -> (r: Result<String, TokenProblem>)
    ensures
        authorization is None ==> r == Err::<String, TokenProblem>(TokenProblem::MissingHeader),
        authorization matches Some(h) ==> r matches Ok(t) && t@ == bearer_token(h@),
{
    match authorization {
        None => Err(TokenProblem::MissingHeader),
        Some(h) => Ok(token_from_authorization(h)),
    }
}

/// The HS256 token that `jsonwebtoken::encode` makes with the default
/// header for the claims `sub`, `username` and `exp`, signed with `key`.
pub uninterp spec fn hs256_token(sub: Seq<char>, username: Seq<char>, exp: usize, key: Seq<u8>) -> Seq<char>;

/// The `sub`, `username` and `exp` claims that `token` carries when its
/// HS256 signature holds under `key`.
pub uninterp spec fn signed_claims(token: Seq<char>, key: Seq<u8>) -> Option<(Seq<char>, Seq<char>, u64)>;

/// `jsonwebtoken::encode` of the claims `sub`, `username`, `exp` with the
/// default (HS256) header and `key` as the HMAC secret. The payload is the
/// JSON object of these three claims, so a decoding under the same key
/// reads them back. Encoding fails only on an algorithm that does not fit
/// the key or on a payload that does not serialise; an HMAC key with the
/// HS256 header and a map of JSON values are neither, and HMAC signing
/// itself always succeeds, so a token always comes back.
#[verifier::external_body]
fn encode_claims(sub: &str, username: &str, exp: usize, key: &[u8]) -> (r: Result<String, String>)
    ensures
        r is Ok,
        r matches Ok(t) ==> t@ == hs256_token(sub@, username@, exp, key@) && signed_claims(t@, key@)
            == Some((sub@, username@, exp as u64)),
{
    let mut claims: BTreeMap<&str, Value> = BTreeMap::new();
    claims.insert("sub", Value::from(sub));
    claims.insert("username", Value::from(username));
    claims.insert("exp", Value::from(exp));
    jsonwebtoken::encode(&Header::default(), &claims, &EncodingKey::from_secret(key)).map_err(|e| e.to_string())
}

/// `jsonwebtoken::decode` of `token` under `key` with the default
/// validation (HS256 signature, `exp` present and not past, by the
/// clock). Which tokens pass depends on the clock, so only this is said:
/// the claims handed back are those the signed token carries.
#[verifier::external_body]
fn decode_claims(token: &str, key: &[u8]) -> (r: Result<(String, String, u64), String>)
    ensures
        r matches Ok(c) ==> signed_claims(token@, key@) == Some((c.0@, c.1@, c.2)),
{
    let data = jsonwebtoken::decode::<BTreeMap<String, Value>>(token, &DecodingKey::from_secret(key), &Validation::default());
    let mut c = data.map_err(|e| e.to_string())?.claims;
    match (c.remove("sub"), c.remove("username"), c.remove("exp").as_ref().and_then(Value::as_u64)) {
        (Some(Value::String(s)), Some(Value::String(u)), Some(e)) => Ok((s, u, e)),
        _ => Err("malformed claims".to_string()),
    }
}

/// A session token for the user issued at `now_secs` (UNIX seconds),
/// valid for `SESSION_TTL_SECS`, signed with `key`.
pub fn create_jwt(user_id: &str, username: &str, now_secs: u64, key: &[u8]) -> (r: Result<String, String>)
    requires
        now_secs + SESSION_TTL_SECS <= usize::MAX,
    ensures
        r is Ok,
        r matches Ok(t) ==> t@ == hs256_token(user_id@, username@, (now_secs + SESSION_TTL_SECS) as usize, key@),
        r matches Ok(t) ==> signed_claims(t@, key@) == Some((user_id@, username@, (now_secs + SESSION_TTL_SECS) as u64)),
{
    let c = session_claims(user_id, username, now_secs);
    encode_claims(c.sub.as_str(), c.username.as_str(), c.exp, key)
}

/// The session claims for decoded `sub`, `username` and `exp`, refused
/// when `exp` does not fit a `usize`.
pub open spec fn claims_of(sub: Seq<char>, username: Seq<char>, exp: u64) -> Option<(Seq<char>, Seq<char>, usize)> {
    if exp <= usize::MAX {
        Some((sub, username, exp as usize))
    } else {
        None
    }
}

/// The claims decoded from a token, as a `Claims` record.
pub fn claims_from(sub: String, username: String, exp: u64) -> (r: Result<Claims, String>)
    ensures
        r is Ok <==> exp <= usize::MAX,
        r matches Ok(c) ==> claims_of(sub@, username@, exp) == Some((c.sub@, c.username@, c.exp)),
{
    if exp > usize::MAX as u64 {
        return Err("exp out of range".to_string());
    }
    Ok(Claims { sub, username, exp: exp as usize })
}

/// The claims of a session token that passes the signature and expiry
/// checks under `key`: those the signed token carries, kept only when
/// `exp` fits a `usize` (see `claims_from`).
pub fn verify_jwt(token: &str, key: &[u8]) -> (r: Result<Claims, String>)
    ensures
        r matches Ok(c) ==> signed_claims(token@, key@) == Some((c.sub@, c.username@, c.exp as u64)),
        r matches Ok(c) ==> signed_claims(token@, key@) matches Some((s, u, e)) && claims_of(s, u, e)
            == Some((c.sub@, c.username@, c.exp)),
        signed_claims(token@, key@) matches Some((s, u, e)) && e > usize::MAX ==> r is Err,
{
    match decode_claims(token, key) {
        Err(e) => Err(e),
        Ok((sub, username, exp)) => claims_from(sub, username, exp),
    }
}

/// A token issued for some claims reads back as exactly those claims.
pub proof fn law_issued_token_reads_back(
    token: Seq<char>,
    key: Seq<u8>,
    issued: (Seq<char>, Seq<char>, u64),
    read: (Seq<char>, Seq<char>, u64),
)
    requires
        signed_claims(token, key) == Some(issued),
        signed_claims(token, key) == Some(read),
    ensures
        read == issued,
{
}

/// The verified claims of a request with the given `Authorization` value
/// (`None` when the header is absent or not text).
pub fn extract_claims_from_headers(authorization: Option<&str>, key: &[u8]) -> (r: Result<Claims, TokenProblem>)
    ensures
        authorization is None ==> r == Err::<Claims, TokenProblem>(TokenProblem::MissingHeader),
        authorization matches Some(h) ==> (r matches Err(p) ==> p == TokenProblem::InvalidToken),
        authorization matches Some(h) ==> (r matches Ok(c) ==> signed_claims(bearer_token(h@), key@)
            == Some((c.sub@, c.username@, c.exp as u64))),
{
    match token_for_request(authorization) {
        Err(p) => Err(p),
        Ok(t) => match verify_jwt(t.as_str(), key) {
            Ok(c) => Ok(c),
            Err(_) => Err(TokenProblem::InvalidToken),
        },
    }
}

// ---------------------------------------------------------------------------
// Signing secret
// ---------------------------------------------------------------------------

/// Placeholder value of `JWT_SECRET` that is never used as a key.
pub const PLACEHOLDER_SECRET: &'static str = "super_secret_jwt_random_key_replace_in_prod";

/// Characters a generated secret is drawn from.
pub const SECRET_ALPHABET: &'static str =
    "ABCDEFGHIJKLMNOPQRSTUVWXYZabcdefghijklmnopqrstuvwxyz0123456789!@#$%^&*()-_=+";

/// A uniformly drawn index below `n`: `fastrand::usize(..n)`.
#[verifier::external_body]
fn random_below(n: usize) -> (r: usize)
    requires
        n > 0,
    ensures
        r < n,
{
    fastrand::usize(..n)
}

/// Length of a generated secret.
pub const SECRET_LEN: usize = 64;

/// The secret spelled by `draws`: the alphabet's byte at each drawn index.
pub open spec fn secret_of(draws: Seq<usize>) -> Seq<u8> {
    draws.map_values(|j: usize| SECRET_ALPHABET.spec_bytes()[j as int])
}

/// Every draw indexes the alphabet.
pub open spec fn draws_in_alphabet(draws: Seq<usize>) -> bool {
    forall|i: int| 0 <= i < draws.len() ==> #[trigger] draws[i] < SECRET_ALPHABET.spec_bytes().len()
}

proof fn lemma_secret_alphabet()
    ensures
        SECRET_ALPHABET.spec_bytes().len() == 76,
{
    reveal_strlit("ABCDEFGHIJKLMNOPQRSTUVWXYZabcdefghijklmnopqrstuvwxyz0123456789!@#$%^&*()-_=+");
    vstd::string::is_ascii_spec_bytes(SECRET_ALPHABET);
}

/// The secret for `SECRET_LEN` drawn alphabet indices.
pub fn secret_from_draws(draws: &Vec<usize>) -> (r: Vec<u8>)
    requires
        draws.len() == SECRET_LEN,
        draws_in_alphabet(draws@),
    ensures
        r@ == secret_of(draws@),
        r.len() == SECRET_LEN,
{
    let alphabet = SECRET_ALPHABET.as_bytes();
    let mut r: Vec<u8> = Vec::new();
    let mut k: usize = 0;
    while k < draws.len()
        invariant
            k <= draws.len(),
            alphabet@ == SECRET_ALPHABET.spec_bytes(),
            draws_in_alphabet(draws@),
            r@ == secret_of(draws@.take(k as int)),
        decreases draws.len() - k,
    {
        r.push(alphabet[draws[k]]);
        k = k + 1;
        assert(r@ =~= secret_of(draws@.take(k as int)));
    }
    assert(draws@.take(draws.len() as int) == draws@);
    r
}

/// A fresh random secret: `SECRET_LEN` characters of `SECRET_ALPHABET`,
/// each drawn uniformly.
pub fn random_secret() -> (r: Vec<u8>)
    ensures
        r.len() == SECRET_LEN,
        exists|d: Seq<usize>| d.len() == SECRET_LEN && draws_in_alphabet(d) && r@ == secret_of(d),
{
    proof {
        lemma_secret_alphabet();
    }
    let n = SECRET_ALPHABET.as_bytes().len();
    let mut draws: Vec<usize> = Vec::new();
    while draws.len() < SECRET_LEN
        invariant
            draws.len() <= SECRET_LEN,
            n == SECRET_ALPHABET.spec_bytes().len(),
            n > 0,
            draws_in_alphabet(draws@),
        decreases SECRET_LEN - draws.len(),
    {
        let j = random_below(n);
        draws.push(j);
    }
    secret_from_draws(&draws)
}

/// Whether a configured `JWT_SECRET` value is used as the signing key:
/// its trimmed form must be non-empty and not the placeholder.
pub open spec fn configured_secret_usable(v: Seq<char>) -> bool {
    trim(v).len() > 0 && trim(v) != PLACEHOLDER_SECRET@
}

/// The signing key: the trimmed configured value when usable, else a
/// random one.
pub fn jwt_secret_from(configured: Option<&str>) -> (r: Vec<u8>)
    ensures
        (match configured {
            Some(v) => configured_secret_usable(v@),
            None => false,
        }) ==> r@ == vstd::utf8::encode_utf8(trim(configured->0@)),
        !(match configured {
            Some(v) => configured_secret_usable(v@),
            None => false,
        }) ==> r.len() == SECRET_LEN && exists|d: Seq<usize>|
            d.len() == SECRET_LEN && draws_in_alphabet(d) && r@ == secret_of(d),
{
    if let Some(v) = configured {
        let t = trimmed(v);
        let tc = chars_of(t.as_str());
        let pc = chars_of(PLACEHOLDER_SECRET);
        if tc.len() > 0 && !same_chars(&tc, &pc) {
            let bytes = t.as_str().as_bytes();
            return vstd::slice::slice_to_vec(bytes);
        }
    }
    random_secret()
}

// ---------------------------------------------------------------------------
// Password hashes
// ---------------------------------------------------------------------------

#[verifier::external_type_specification]
#[verifier::external_body]
pub struct ExBcryptError(bcrypt::BcryptError);

/// What `bcrypt::verify(password, hash)` answers, an error counting as
/// `false`.
pub uninterp spec fn bcrypt_accepts(password: Seq<char>, hash: Seq<char>) -> bool;

/// `bcrypt::hash(password, DEFAULT_COST)`. The salt is random, so nothing
/// is said of the hash itself; `bcrypt::verify` recomputes the hash from
/// the cost and salt written into it, so it accepts the same password.
#[verifier::external_body]
fn bcrypt_hash(password: &str) -> (r: Result<String, bcrypt::BcryptError>)
    ensures
        r matches Ok(h) ==> bcrypt_accepts(password@, h@),
{
    bcrypt::hash(password, bcrypt::DEFAULT_COST)
}

/// `bcrypt::verify(password, hash)`, with an error (a malformed hash)
/// read as a mismatch.
#[verifier::external_body]
fn bcrypt_verify(password: &str, hash: &str) -> (r: bool)
    ensures
        r == bcrypt_accepts(password@, hash@),
{
    bcrypt::verify(password, hash).unwrap_or(false)
}

/// Hashes a password for storage.
pub fn hash_password(password: &str) -> (r: Result<String, HttpStatus>)
    ensures
        r matches Ok(h) ==> bcrypt_accepts(password@, h@),
        r matches Err(e) ==> e == HttpStatus::InternalServerError,
{
    match bcrypt_hash(password) {
        Ok(h) => Ok(h),
        Err(_) => Err(HttpStatus::InternalServerError),
    }
}

/// Checks a password against a stored hash.
pub fn verify_password(password: &str, hash: &str) -> (r: bool)
    ensures
        r == bcrypt_accepts(password@, hash@),
{
    bcrypt_verify(password, hash)
}

} // verus!
