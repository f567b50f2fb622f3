//! Google sign-in: the checks made of what Google's token-info endpoint
//! reports, how the Google account is matched with a stored user, and the
//! user name given to a new one.

use vstd::prelude::*;
use vstd::utf8::encode_utf8;

use crate::access::{google_gate, google_key, ACCOUNT_PRUNE_LIMIT, GOOGLE_MAX, LOGIN_WINDOW_MS, TOO_MANY_GOOGLE_LOGINS};
use crate::auth::{AuthConfigResponse, UserInfo};
use crate::throttle::{after_request, request_admitted, AttemptTable};
use crate::links::{append_decimal, decimal};
use crate::numbers::{i64_of_text, parse_i64};
use crate::status::HttpStatus;
use crate::text::{
    append_str, char_width, char_width_of, chars_of, is_ascii_alnum, is_ascii_alnum_char,
    lemma_utf8_len_at_least_len, lemma_utf8_len_push, lowercase, same_chars_str, string_of,
    to_lowercase, trim, trimmed, utf8_len, utf8_len_of,
};
use crate::title::{char_from, char_from_exec, lemma_char_from};
use crate::tracks::{clone_opt, opt_view, str_opt};

verus! {

broadcast use vstd::string::group_string_axioms;

// ---------------------------------------------------------------------------
// Records
// ---------------------------------------------------------------------------

/// A claim of the token-info reply that Google may send as a JSON
/// boolean, number or string.
pub enum ClaimValue {
    /// Missing, `null`, or an array or object.
    Absent,
    Bool(bool),
    /// A JSON number that is an `i64`.
    Int(i64),
    /// Any other JSON number (a fraction, or out of range).
    OtherNumber,
    Text(String),
}

/// The fields of the token-info reply that sign-in reads.
pub struct GoogleTokenInfo {
    pub iss: String,
    pub sub: String,
    pub aud: String,
    pub email: Option<String>,
    pub email_verified: ClaimValue,
    pub name: Option<String>,
    pub picture: Option<String>,
    pub exp: ClaimValue,
}

/// The Google account a checked token speaks for.
pub struct GoogleIdentity {
    /// The trimmed `sub` claim.
    pub google_id: String,
    /// The trimmed, lower-cased address, when not empty.
    pub email: Option<String>,
    /// The trimmed picture link, when not empty.
    pub avatar_url: Option<String>,
    /// The display name, as sent.
    pub name: Option<String>,
}

/// Why a Google sign-in was refused.
#[derive(PartialEq, Eq, Structural, Clone, Copy, Debug)]
pub enum GoogleProblem {
    Disabled,
    MissingCredential,
    ClientSetup,
    Unreachable,
    RejectedToken,
    BadReply,
    WrongIssuer,
    WrongAudience,
    Expired,
    EmailUnverified,
    EmailTaken,
    Storage,
    TokenFailed,
    HashFailed,
    CreateFailed,
    NewTokenFailed,
}

impl GoogleProblem {
    pub open spec fn status(self) -> HttpStatus {
        match self {
            GoogleProblem::Disabled => HttpStatus::Forbidden,
            GoogleProblem::MissingCredential => HttpStatus::BadRequest,
            GoogleProblem::Unreachable => HttpStatus::BadGateway,
            GoogleProblem::RejectedToken => HttpStatus::Unauthorized,
            GoogleProblem::WrongIssuer => HttpStatus::Unauthorized,
            GoogleProblem::WrongAudience => HttpStatus::Unauthorized,
            GoogleProblem::Expired => HttpStatus::Unauthorized,
            GoogleProblem::EmailUnverified => HttpStatus::Forbidden,
            GoogleProblem::EmailTaken => HttpStatus::Conflict,
            _ => HttpStatus::InternalServerError,
        }
    }

    /// The message text of each problem.
    pub open spec fn text(self) -> Seq<char> {
        match self {
            GoogleProblem::Disabled => "Google авторизация отключена или не настроена на сервере"@,
            GoogleProblem::MissingCredential => "Отсутствует Google токен (credential)"@,
            GoogleProblem::ClientSetup => "Ошибка инициализации HTTP-клиента"@,
            GoogleProblem::Unreachable => "Не удалось связаться с серверами Google для проверки подлинности"@,
            GoogleProblem::RejectedToken => "Недействительный или просроченный токен Google"@,
            GoogleProblem::BadReply => "Ошибка обработки ответа Google"@,
            GoogleProblem::WrongIssuer => "Неверный издатель токена Google (iss)"@,
            GoogleProblem::WrongAudience => "Токен выдан для другого Client ID"@,
            GoogleProblem::Expired => "Срок действия токена Google истёк"@,
            GoogleProblem::EmailUnverified => "Email вашего Google-аккаунта не подтверждён"@,
            GoogleProblem::EmailTaken => "Этот email уже привязан к другому Google-аккаунту"@,
            GoogleProblem::Storage => "Ошибка базы данных"@,
            GoogleProblem::TokenFailed => "Ошибка генерации токена"@,
            GoogleProblem::HashFailed => "Не удалось сгенерировать хэш"@,
            GoogleProblem::CreateFailed => "Не удалось создать аккаунт Google"@,
            GoogleProblem::NewTokenFailed => "Не удалось сгенерировать токен"@,
        }
    }

    /// The status and message a refused sign-in is answered with.
    pub fn message(&self) -> (r: (HttpStatus, &'static str))
        ensures
            r.0 == self.status(),
            r.1@ == self.text(),
    {
        match self {
            GoogleProblem::Disabled => (
                HttpStatus::Forbidden,
                "Google авторизация отключена или не настроена на сервере",
            ),
            GoogleProblem::MissingCredential => (
                HttpStatus::BadRequest,
                "Отсутствует Google токен (credential)",
            ),
            GoogleProblem::ClientSetup => (
                HttpStatus::InternalServerError,
                "Ошибка инициализации HTTP-клиента",
            ),
            GoogleProblem::Unreachable => (
                HttpStatus::BadGateway,
                "Не удалось связаться с серверами Google для проверки подлинности",
            ),
            GoogleProblem::RejectedToken => (
                HttpStatus::Unauthorized,
                "Недействительный или просроченный токен Google",
            ),
            GoogleProblem::BadReply => (
                HttpStatus::InternalServerError,
                "Ошибка обработки ответа Google",
            ),
            GoogleProblem::WrongIssuer => (
                HttpStatus::Unauthorized,
                "Неверный издатель токена Google (iss)",
            ),
            GoogleProblem::WrongAudience => (
                HttpStatus::Unauthorized,
                "Токен выдан для другого Client ID",
            ),
            GoogleProblem::Expired => (HttpStatus::Unauthorized, "Срок действия токена Google истёк"),
            GoogleProblem::EmailUnverified => (
                HttpStatus::Forbidden,
                "Email вашего Google-аккаунта не подтверждён",
            ),
            GoogleProblem::EmailTaken => (
                HttpStatus::Conflict,
                "Этот email уже привязан к другому Google-аккаунту",
            ),
            GoogleProblem::Storage => (HttpStatus::InternalServerError, "Ошибка базы данных"),
            GoogleProblem::TokenFailed => (HttpStatus::InternalServerError, "Ошибка генерации токена"),
            GoogleProblem::HashFailed => (
                HttpStatus::InternalServerError,
                "Не удалось сгенерировать хэш",
            ),
            GoogleProblem::CreateFailed => (
                HttpStatus::InternalServerError,
                "Не удалось создать аккаунт Google",
            ),
            GoogleProblem::NewTokenFailed => (
                HttpStatus::InternalServerError,
                "Не удалось сгенерировать токен",
            ),
        }
    }
}

// ---------------------------------------------------------------------------
// Configuration and the request
// ---------------------------------------------------------------------------

/// The configured client id, trimmed, when it is not empty.
pub open spec fn configured_client_id(v: Option<Seq<char>>) -> Option<Seq<char>> {
    match v {
        Some(s) => if trim(s).len() > 0 {
            Some(trim(s))
        } else {
            None
        },
        None => None,
    }
}

/// The first answer to a Google sign-in from `ip`: the address's limit
/// is checked (and the request counted), then that sign-in is configured,
/// then that a credential was sent. On success: the client id to check
/// the token against and the trimmed credential.
pub fn google_request(
    attempts: &mut AttemptTable,
    ip: &str,
    configured: Option<&str>,
    credential: &str,
    now: u64,
) -> (r: Result<(String, String), (HttpStatus, &'static str)>)
    requires
        old(attempts).wf(),
    ensures
        final(attempts).wf(),
        final(attempts)@ == after_request(
            old(attempts)@,
            google_key(ip@),
            ACCOUNT_PRUNE_LIMIT as nat,
            now,
            LOGIN_WINDOW_MS,
        ),
        ({
            let admitted = request_admitted(
                old(attempts)@,
                google_key(ip@),
                ACCOUNT_PRUNE_LIMIT as nat,
                now,
                LOGIN_WINDOW_MS,
                GOOGLE_MAX,
            );
            let client = configured_client_id(str_opt(configured));
            if !admitted {
                r == Err::<(String, String), (HttpStatus, &'static str)>(
                    (HttpStatus::TooManyRequests, TOO_MANY_GOOGLE_LOGINS),
                )
            } else if client is None {
                r matches Err(e) && e.0 == GoogleProblem::Disabled.status() && e.1@
                    == GoogleProblem::Disabled.text()
            } else if trim(credential@).len() == 0 {
                r matches Err(e) && e.0 == GoogleProblem::MissingCredential.status() && e.1@
                    == GoogleProblem::MissingCredential.text()
            } else {
                r matches Ok((c, t)) && c@ == client->0 && t@ == trim(credential@)
            }
        }),
{
    match google_gate(attempts, ip, now) {
        Err(e) => return Err(e),
        Ok(()) => {},
    }
    let client = match google_client_id(configured) {
        None => return Err(GoogleProblem::Disabled.message()),
        Some(c) => c,
    };
    match credential_of(credential) {
        Err(p) => Err(p.message()),
        Ok(t) => Ok((client, t)),
    }
}

/// The client id sign-in checks tokens against (`GOOGLE_CLIENT_ID`).
pub fn google_client_id(configured: Option<&str>) -> (r: Option<String>)
    ensures
        opt_view(r) == configured_client_id(str_opt(configured)),
{
    match configured {
        Some(v) => {
            let t = trimmed(v);
            if t.as_str().is_empty() {
                None
            } else {
                Some(t)
            }
        },
        None => None,
    }
}

/// What the client is told of Google sign-in.
pub fn auth_config(configured: Option<&str>) -> (r: AuthConfigResponse)
    ensures
        opt_view(r.google_client_id) == configured_client_id(str_opt(configured)),
        r.google_auth_enabled == configured_client_id(str_opt(configured)) is Some,
{
    let id = google_client_id(configured);
    let enabled = id.is_some();
    AuthConfigResponse { google_client_id: id, google_auth_enabled: enabled }
}

/// The ID token sent by the client, trimmed; an empty one is refused.
pub fn credential_of(credential: &str) -> (r: Result<String, GoogleProblem>)
    ensures
        trim(credential@).len() == 0 ==> r == Err::<String, GoogleProblem>(
            GoogleProblem::MissingCredential,
        ),
        trim(credential@).len() > 0 ==> (r matches Ok(c) && c@ == trim(credential@)),
{
    let t = trimmed(credential);
    if t.as_str().is_empty() {
        Err(GoogleProblem::MissingCredential)
    } else {
        Ok(t)
    }
}

// ---------------------------------------------------------------------------
// Checking the token-info reply
// ---------------------------------------------------------------------------

pub open spec fn issuer_ok(iss: Seq<char>) -> bool {
    iss == "https://accounts.google.com"@ || iss == "accounts.google.com"@
}

/// The expiry time carried by `exp`: a whole JSON number, or a string
/// that reads as one.
pub open spec fn claim_seconds(v: ClaimValue) -> Option<i64> {
    match v {
        ClaimValue::Int(n) => Some(n),
        ClaimValue::Text(s) => i64_of_text(s@),
        _ => None,
    }
}

/// `"true"` in any ASCII case.
pub open spec fn is_true_text(s: Seq<char>) -> bool {
    &&& s.len() == 4
    &&& (s[0] == 't' || s[0] == 'T')
    &&& (s[1] == 'r' || s[1] == 'R')
    &&& (s[2] == 'u' || s[2] == 'U')
    &&& (s[3] == 'e' || s[3] == 'E')
}

/// Whether `email_verified` says yes: `true`, or the string `"true"` in
/// any ASCII case.
pub open spec fn claim_verified(v: ClaimValue) -> bool {
    match v {
        ClaimValue::Bool(b) => b,
        ClaimValue::Text(s) => is_true_text(s@),
        _ => false,
    }
}

/// The first check the reply fails, in the order they are made.
pub open spec fn token_problem(info: GoogleTokenInfo, expected: Seq<char>, now: i64) -> Option<
    GoogleProblem,
> {
    if !issuer_ok(info.iss@) {
        Some(GoogleProblem::WrongIssuer)
    } else if info.aud@ != expected {
        Some(GoogleProblem::WrongAudience)
    } else if (claim_seconds(info.exp) matches Some(e) && now >= e) {
        Some(GoogleProblem::Expired)
    } else if !claim_verified(info.email_verified) {
        Some(GoogleProblem::EmailUnverified)
    } else {
        None
    }
}

pub open spec fn clean_email(e: Option<Seq<char>>) -> Option<Seq<char>> {
    match e {
        Some(x) => if lowercase(trim(x)).len() > 0 {
            Some(lowercase(trim(x)))
        } else {
            None
        },
        None => None,
    }
}

pub open spec fn clean_picture(p: Option<Seq<char>>) -> Option<Seq<char>> {
    match p {
        Some(x) => if trim(x).len() > 0 {
            Some(trim(x))
        } else {
            None
        },
        None => None,
    }
}

/// `id` is the identity `info` speaks for.
pub open spec fn identity_of(info: GoogleTokenInfo, id: GoogleIdentity) -> bool {
    &&& id.google_id@ == trim(info.sub@)
    &&& opt_view(id.email) == clean_email(opt_view(info.email))
    &&& opt_view(id.avatar_url) == clean_picture(opt_view(info.picture))
    &&& opt_view(id.name) == opt_view(info.name)
}

pub fn expiry_of(v: &ClaimValue) -> (r: Option<i64>)
    ensures
        r == claim_seconds(*v),
{
    match v {
        ClaimValue::Int(n) => Some(*n),
        ClaimValue::Text(s) => parse_i64(s.as_str()),
        _ => None,
    }
}

fn is_true_chars(s: &str) -> (r: bool)
    ensures
        r == is_true_text(s@),
{
    let c = chars_of(s);
    c.len() == 4 && (c[0] == 't' || c[0] == 'T') && (c[1] == 'r' || c[1] == 'R') && (c[2] == 'u'
        || c[2] == 'U') && (c[3] == 'e' || c[3] == 'E')
}

pub fn email_verified_of(v: &ClaimValue) -> (r: bool)
    ensures
        r == claim_verified(*v),
{
    match v {
        ClaimValue::Bool(b) => *b,
        ClaimValue::Text(s) => is_true_chars(s.as_str()),
        _ => false,
    }
}

fn cleaned_email(e: &Option<String>) -> (r: Option<String>)
    ensures
        opt_view(r) == clean_email(opt_view(*e)),
{
    match e {
        Some(x) => {
            let t = trimmed(x.as_str());
            let l = to_lowercase(t.as_str());
            if l.as_str().is_empty() {
                None
            } else {
                Some(l)
            }
        },
        None => None,
    }
}

fn cleaned_picture(p: &Option<String>) -> (r: Option<String>)
    ensures
        opt_view(r) == clean_picture(opt_view(*p)),
{
    match p {
        Some(x) => {
            let t = trimmed(x.as_str());
            if t.as_str().is_empty() {
                None
            } else {
                Some(t)
            }
        },
        None => None,
    }
}

/// Checks the token-info reply against the expected client id at time
/// `now` (UNIX seconds) and gives the account it speaks for.
pub fn google_identity(info: &GoogleTokenInfo, expected_client_id: &str, now: i64) -> (r: Result<
    GoogleIdentity,
    GoogleProblem,
>)
    ensures
        match token_problem(*info, expected_client_id@, now) {
            Some(p) => r == Err::<GoogleIdentity, GoogleProblem>(p),
            None => (r matches Ok(id) && identity_of(*info, id)),
        },
{
    proof {
        reveal_strlit("https://accounts.google.com");
        reveal_strlit("accounts.google.com");
    }
    if !(same_chars_str(info.iss.as_str(), "https://accounts.google.com") || same_chars_str(
        info.iss.as_str(),
        "accounts.google.com",
    )) {
        return Err(GoogleProblem::WrongIssuer);
    }
    if !same_chars_str(info.aud.as_str(), expected_client_id) {
        return Err(GoogleProblem::WrongAudience);
    }
    if let Some(e) = expiry_of(&info.exp) {
        if now >= e {
            return Err(GoogleProblem::Expired);
        }
    }
    if !email_verified_of(&info.email_verified) {
        return Err(GoogleProblem::EmailUnverified);
    }
    Ok(
        GoogleIdentity {
            google_id: trimmed(info.sub.as_str()),
            email: cleaned_email(&info.email),
            avatar_url: cleaned_picture(&info.picture),
            name: clone_opt(&info.name),
        },
    )
}

// ---------------------------------------------------------------------------
// Matching a stored user
// ---------------------------------------------------------------------------

pub open spec fn first_of(a: Option<Seq<char>>, b: Option<Seq<char>>) -> Option<Seq<char>> {
    if a is Some {
        a
    } else {
        b
    }
}

/// Whether a stored user found by Google id gets its picture or address
/// rewritten: when Google sent one that differs from the stored one.
pub open spec fn needs_refresh(id: GoogleIdentity, stored: UserInfo) -> bool {
    ||| (id.avatar_url is Some && opt_view(stored.avatar_url) != opt_view(id.avatar_url))
    ||| (id.email is Some && opt_view(stored.email) != opt_view(id.email))
}

fn same_opt(a: &Option<String>, b: &Option<String>) -> (r: bool)
    ensures
        r == (opt_view(*a) == opt_view(*b)),
{
    match (a, b) {
        (Some(x), Some(y)) => same_chars_str(x.as_str(), y.as_str()),
        (None, None) => true,
        _ => false,
    }
}

fn first_present(a: &Option<String>, b: &Option<String>) -> (r: Option<String>)
    ensures
        opt_view(r) == first_of(opt_view(*a), opt_view(*b)),
{
    if a.is_some() {
        clone_opt(a)
    } else {
        clone_opt(b)
    }
}

/// A stored user found by Google id: what the client is told, and
/// whether the stored picture and address are to be refreshed.
pub fn refresh_linked_user(identity: &GoogleIdentity, stored: &UserInfo) -> (r: (UserInfo, bool))
    ensures
        r.0.id@ == stored.id@,
        r.0.username@ == stored.username@,
        opt_view(r.0.email) == first_of(opt_view(identity.email), opt_view(stored.email)),
        opt_view(r.0.avatar_url) == first_of(
            opt_view(identity.avatar_url),
            opt_view(stored.avatar_url),
        ),
        r.1 == needs_refresh(*identity, *stored),
{
    let refresh = (identity.avatar_url.is_some() && !same_opt(&stored.avatar_url, &identity.avatar_url))
        || (identity.email.is_some() && !same_opt(&stored.email, &identity.email));
    let user = UserInfo {
        id: stored.id.clone(),
        username: stored.username.clone(),
        email: first_present(&identity.email, &stored.email),
        avatar_url: first_present(&identity.avatar_url, &stored.avatar_url),
    };
    (user, refresh)
}

/// A stored user found by address: refused when the address is already
/// linked to another Google account, else linked, and what the client is
/// told.
pub fn link_by_email(
    identity: &GoogleIdentity,
    stored: &UserInfo,
    stored_google_id: Option<&str>,
) -> (r: Result<UserInfo, GoogleProblem>)
    ensures
        (stored_google_id matches Some(g) && g@ != identity.google_id@) ==> r == Err::<
            UserInfo,
            GoogleProblem,
        >(GoogleProblem::EmailTaken),
        !(stored_google_id matches Some(g) && g@ != identity.google_id@) ==> r is Ok,
        r matches Ok(u) ==> u.id@ == stored.id@ && u.username@ == stored.username@ && opt_view(
            u.email,
        ) == opt_view(identity.email) && opt_view(u.avatar_url) == first_of(
            opt_view(identity.avatar_url),
            opt_view(stored.avatar_url),
        ),
{
    if let Some(g) = stored_google_id {
        if !same_chars_str(g, identity.google_id.as_str()) {
            return Err(GoogleProblem::EmailTaken);
        }
    }
    Ok(
        UserInfo {
            id: stored.id.clone(),
            username: stored.username.clone(),
            email: clone_opt(&identity.email),
            avatar_url: first_present(&identity.avatar_url, &stored.avatar_url),
        },
    )
}

// ---------------------------------------------------------------------------
// User names for new accounts
// ---------------------------------------------------------------------------

/// Characters kept in a derived user name; every other one becomes `_`.
pub open spec fn name_char(c: char) -> char {
    if is_ascii_alnum(c) || c == '_' || c == '-' {
        c
    } else {
        '_'
    }
}

pub open spec fn strip_lead(s: Seq<char>) -> Seq<char>
    decreases s.len(),
{
    if s.len() > 0 && s[0] == '_' {
        strip_lead(s.drop_first())
    } else {
        s
    }
}

pub open spec fn strip_trail(s: Seq<char>) -> Seq<char>
    decreases s.len(),
{
    if s.len() > 0 && s.last() == '_' {
        strip_trail(s.drop_last())
    } else {
        s
    }
}

/// `text` with every character mapped by `name_char` and the `_` at both
/// ends removed.
pub open spec fn name_stem(text: Seq<char>) -> Seq<char> {
    strip_trail(strip_lead(text.map_values(|c: char| name_char(c))))
}

/// A user name made from `text`: its stem cut to 20 characters, when the
/// stem has at least 3. Every character of a stem is ASCII, so its length
/// in characters is its length in bytes.
pub open spec fn name_base(text: Seq<char>) -> Option<Seq<char>> {
    let t = name_stem(text);
    if t.len() >= 3 {
        Some(
            if t.len() <= 20 {
                t
            } else {
                t.take(20)
            },
        )
    } else {
        None
    }
}

/// The part of an address before its first `@` (all of it when it has
/// none).
pub open spec fn local_part(e: Seq<char>) -> Seq<char> {
    match char_from(e, '@', 0) {
        Some(i) => e.take(i),
        None => e,
    }
}

/// The longest prefix of `s` whose UTF-8 encoding has at most `n` bytes.
pub open spec fn cut_bytes(s: Seq<char>, n: nat) -> Seq<char>
    decreases s.len(),
{
    if s.len() > 0 && char_width(s[0]) <= n {
        seq![s[0]] + cut_bytes(s.drop_first(), (n - char_width(s[0])) as nat)
    } else {
        Seq::empty()
    }
}

/// `&s[..n.min(s.len())]` exists: the first `n` bytes of `s` (all of them
/// when it has fewer) end on a character boundary.
pub open spec fn byte_cut_ok(s: Seq<char>, n: nat) -> bool {
    utf8_len(s) <= n || utf8_len(cut_bytes(s, n)) == n
}

/// Whether the name and the address give no base name, so that the
/// Google id is used.
pub open spec fn needs_id_name(name: Option<Seq<char>>, email: Option<Seq<char>>) -> bool {
    &&& !(name matches Some(n) && name_base(n) is Some)
    &&& !(email matches Some(e) && name_base(local_part(e)) is Some)
}

/// The base of a new account's user name: from the display name, else
/// from the address, else `user_` and the first six bytes of the id.
pub open spec fn google_base_name(
    name: Option<Seq<char>>,
    email: Option<Seq<char>>,
    google_id: Seq<char>,
) -> Seq<char> {
    if (name matches Some(n) && name_base(n) is Some) {
        name_base(name->0)->0
    } else if (email matches Some(e) && name_base(local_part(e)) is Some) {
        name_base(local_part(email->0))->0
    } else {
        "user_"@ + cut_bytes(google_id, 6)
    }
}

/// The user name tried at the given attempt: the base first, then the
/// base cut to 16 bytes with `_1` … `_99`; after that a random name is
/// used.
pub open spec fn username_candidate(base: Seq<char>, attempt: u32) -> Option<Seq<char>> {
    if attempt == 0 {
        Some(base)
    } else if attempt < 100 {
        Some(cut_bytes(base, 16) + "_"@ + decimal(attempt as nat))
    } else {
        None
    }
}

proof fn lemma_utf8_len_prepend(c: char, s: Seq<char>)
    ensures
        utf8_len(seq![c] + s) == char_width(c) + utf8_len(s),
{
    assert((seq![c] + s).drop_first() =~= s);
    assert((seq![c] + s)[0] == c);
}

proof fn lemma_utf8_len_concat(a: Seq<char>, b: Seq<char>)
    ensures
        utf8_len(a + b) == utf8_len(a) + utf8_len(b),
    decreases a.len(),
{
    if a.len() == 0 {
        assert(a + b =~= b);
    } else {
        lemma_utf8_len_concat(a.drop_first(), b);
        assert((a + b).drop_first() =~= a.drop_first() + b);
        assert((a + b)[0] == a[0]);
    }
}

proof fn lemma_cut_bytes_fits(s: Seq<char>, n: nat)
    ensures
        utf8_len(cut_bytes(s, n)) <= n,
        cut_bytes(s, n).len() <= s.len(),
    decreases s.len(),
{
    if s.len() > 0 && char_width(s[0]) <= n {
        let m = (n - char_width(s[0])) as nat;
        lemma_cut_bytes_fits(s.drop_first(), m);
        lemma_utf8_len_prepend(s[0], cut_bytes(s.drop_first(), m));
    } else {
        assert(encode_utf8(Seq::<char>::empty()) =~= Seq::<u8>::empty());
    }
}

pub open spec fn is_ascii_text(s: Seq<char>) -> bool {
    forall|i: int| 0 <= i < s.len() ==> (#[trigger] s[i] as u32) < 128
}

proof fn lemma_ascii_cut(s: Seq<char>, n: nat)
    requires
        is_ascii_text(s),
    ensures
        cut_bytes(s, n) == s.take(if s.len() <= n { s.len() as int } else { n as int }),
        utf8_len(s) == s.len(),
    decreases s.len(),
{
    if s.len() == 0 {
        assert(s.take(0) =~= Seq::<char>::empty());
        assert(encode_utf8(Seq::<char>::empty()) =~= Seq::<u8>::empty());
    } else {
        assert((s[0] as u32) < 128);
        assert(char_width(s[0]) == 1);
        assert(is_ascii_text(s.drop_first())) by {
            assert forall|i: int| 0 <= i < s.drop_first().len() implies (#[trigger] s.drop_first()[i]
                as u32) < 128 by {
                assert(s.drop_first()[i] == s[i + 1]);
            }
        }
        lemma_utf8_len_prepend(s[0], s.drop_first());
        assert(seq![s[0]] + s.drop_first() =~= s);
        if n >= 1 {
            lemma_ascii_cut(s.drop_first(), (n - 1) as nat);
            let k: int = if s.len() <= n { s.len() as int } else { n as int };
            assert(seq![s[0]] + s.drop_first().take(k - 1) =~= s.take(k));
        } else {
            lemma_ascii_cut(s.drop_first(), 0);
            assert(s.take(0) =~= Seq::<char>::empty());
        }
    }
}

/// A base name allows every candidate: cutting it to 16 bytes never
/// splits a character.
proof fn lemma_base_cut_ok(
    name: Option<Seq<char>>,
    email: Option<Seq<char>>,
    google_id: Seq<char>,
)
    ensures
        byte_cut_ok(google_base_name(name, email, google_id), 16),
{
    let b = google_base_name(name, email, google_id);
    if (name matches Some(n) && name_base(n) is Some) || (email matches Some(e) && name_base(
        local_part(e),
    ) is Some) {
        let text = if (name matches Some(n) && name_base(n) is Some) {
            name->0
        } else {
            local_part(email->0)
        };
        let mapped = text.map_values(|c: char| name_char(c));
        let t = name_stem(text);
        assert forall|i: int| 0 <= i < mapped.len() implies #[trigger] mapped[i] == name_char(
            mapped[i],
        ) by {
            assert(mapped[i] == name_char(text[i]));
        }
        lemma_stem_ascii(mapped);
        assert(is_ascii_text(b)) by {
            assert forall|i: int| 0 <= i < b.len() implies (#[trigger] b[i] as u32) < 128 by {
                assert(b[i] == t[i]);
            }
        }
        lemma_ascii_cut(b, 16);
        if b.len() > 16 {
            assert(is_ascii_text(b.take(16))) by {
                assert forall|i: int| 0 <= i < 16 implies (#[trigger] b.take(16)[i] as u32) < 128 by {
                    assert(b.take(16)[i] == b[i]);
                }
            }
            lemma_ascii_cut(b.take(16), 16);
        }
    } else {
        lemma_cut_bytes_fits(google_id, 6);
        reveal_strlit("user_");
        lemma_ascii_cut("user_"@, 5);
        lemma_utf8_len_concat("user_"@, cut_bytes(google_id, 6));
    }
}

proof fn lemma_strip_lead_ascii(s: Seq<char>)
    requires
        is_ascii_text(s),
    ensures
        is_ascii_text(strip_lead(s)),
        strip_lead(s).len() <= s.len(),
    decreases s.len(),
{
    if s.len() > 0 && s[0] == '_' {
        assert(is_ascii_text(s.drop_first())) by {
            assert forall|i: int| 0 <= i < s.drop_first().len() implies (#[trigger] s.drop_first()[i]
                as u32) < 128 by {
                assert(s.drop_first()[i] == s[i + 1]);
            }
        }
        lemma_strip_lead_ascii(s.drop_first());
    }
}

proof fn lemma_strip_trail_ascii(s: Seq<char>)
    requires
        is_ascii_text(s),
    ensures
        is_ascii_text(strip_trail(s)),
    decreases s.len(),
{
    if s.len() > 0 && s.last() == '_' {
        assert(is_ascii_text(s.drop_last())) by {
            assert forall|i: int| 0 <= i < s.drop_last().len() implies (#[trigger] s.drop_last()[i]
                as u32) < 128 by {
                assert(s.drop_last()[i] == s[i]);
            }
        }
        lemma_strip_trail_ascii(s.drop_last());
    }
}

proof fn lemma_stem_ascii(mapped: Seq<char>)
    requires
        forall|i: int| 0 <= i < mapped.len() ==> #[trigger] mapped[i] == name_char(mapped[i]),
    ensures
        is_ascii_text(strip_trail(strip_lead(mapped))),
{
    assert(is_ascii_text(mapped)) by {
        assert forall|i: int| 0 <= i < mapped.len() implies (#[trigger] mapped[i] as u32) < 128 by {
            assert(mapped[i] == name_char(mapped[i]));
        }
    }
    lemma_strip_lead_ascii(mapped);
    lemma_strip_trail_ascii(strip_lead(mapped));
}

// Executable steps -----------------------------------------------------------

fn name_char_of(c: char) -> (r: char)
    ensures
        r == name_char(c),
{
    if is_ascii_alnum_char(c) || c == '_' || c == '-' {
        c
    } else {
        '_'
    }
}

proof fn lemma_strip_lead_skip(s: Seq<char>, i: int)
    requires
        0 <= i <= s.len(),
        forall|k: int| 0 <= k < i ==> #[trigger] s[k] == '_',
    ensures
        strip_lead(s) == strip_lead(s.skip(i)),
    decreases i,
{
    if i > 0 {
        lemma_strip_lead_skip(s, i - 1);
        assert(s.skip(i - 1).drop_first() == s.skip(i));
        assert(s.skip(i - 1)[0] == s[i - 1]);
    } else {
        assert(s.skip(0) == s);
    }
}

proof fn lemma_strip_trail_take(s: Seq<char>, j: int)
    requires
        0 <= j <= s.len(),
        forall|k: int| j <= k < s.len() ==> #[trigger] s[k] == '_',
    ensures
        strip_trail(s) == strip_trail(s.take(j)),
    decreases s.len() - j,
{
    if j < s.len() {
        lemma_strip_trail_take(s, j + 1);
        assert(s.take(j + 1).drop_last() == s.take(j));
        assert(s.take(j + 1).last() == s[j]);
    } else {
        assert(s.take(j) == s);
    }
}

/// The stem of `text` (see `name_stem`).
fn name_stem_of(text: &str) -> (r: Vec<char>)
    ensures
        r@ == name_stem(text@),
{
    let t = chars_of(text);
    let mut m: Vec<char> = Vec::new();
    let mut i: usize = 0;
    while i < t.len()
        invariant
            i <= t.len(),
            t@ == text@,
            m@ == t@.take(i as int).map_values(|c: char| name_char(c)),
        decreases t.len() - i,
    {
        m.push(name_char_of(t[i]));
        i = i + 1;
        assert(t@.take(i as int).map_values(|c: char| name_char(c)) =~= t@.take(i - 1).map_values(
            |c: char| name_char(c),
        ).push(name_char(t@[i - 1])));
    }
    assert(t@.take(t.len() as int) == t@);
    let ghost mapped = m@;
    let mut a: usize = 0;
    while a < m.len() && m[a] == '_'
        invariant
            a <= m.len(),
            m@ == mapped,
            forall|k: int| 0 <= k < a ==> #[trigger] mapped[k] == '_',
        decreases m.len() - a,
    {
        a = a + 1;
    }
    proof {
        lemma_strip_lead_skip(mapped, a as int);
        if a < m.len() {
            assert(mapped.skip(a as int)[0] == mapped[a as int]);
        }
        assert(strip_lead(mapped) == mapped.skip(a as int));
    }
    let ghost lead = mapped.skip(a as int);
    let mut b: usize = m.len();
    while b > a && m[b - 1] == '_'
        invariant
            a <= b <= m.len(),
            m@ == mapped,
            forall|k: int| b <= k < m.len() ==> #[trigger] mapped[k] == '_',
        decreases b - a,
    {
        b = b - 1;
    }
    proof {
        let tb = (b - a) as int;
        assert forall|k: int| tb <= k < lead.len() implies #[trigger] lead[k] == '_' by {
            assert(lead[k] == mapped[k + a]);
        }
        lemma_strip_trail_take(lead, tb);
        assert(lead.take(tb) == mapped.subrange(a as int, b as int));
        if tb > 0 {
            assert(lead.take(tb).last() == mapped[b - 1]);
        }
    }
    let mut r: Vec<char> = Vec::new();
    let mut k = a;
    while k < b
        invariant
            a <= k <= b <= m.len(),
            m@ == mapped,
            r@ == mapped.subrange(a as int, k as int),
        decreases b - k,
    {
        r.push(m[k]);
        k = k + 1;
    }
    r
}

/// A user name made from `text` (see `name_base`).
pub fn name_base_of(text: &str) -> (r: Option<String>)
    ensures
        opt_view(r) == name_base(text@),
{
    let t = name_stem_of(text);
    if t.len() >= 3 {
        let n: usize = if t.len() <= 20 {
            t.len()
        } else {
            20
        };
        let mut out = String::new();
        let mut i: usize = 0;
        while i < n
            invariant
                i <= n <= t.len(),
                out@ == t@.take(i as int),
            decreases n - i,
        {
            out.push(t[i]);
            i = i + 1;
            assert(t@.take(i as int) =~= t@.take(i - 1).push(t@[i - 1]));
        }
        assert(t@.len() <= 20 ==> t@.take(n as int) =~= t@);
        Some(out)
    } else {
        None
    }
}

fn local_part_of(e: &str) -> (r: String)
    ensures
        r@ == local_part(e@),
{
    let c = chars_of(e);
    match char_from_exec(&c, '@', 0) {
        Some(i) => {
            proof {
                lemma_char_from(c@, '@', 0);
            }
            let mut out = String::new();
            let mut k: usize = 0;
            while k < i
                invariant
                    k <= i < c.len(),
                    out@ == c@.take(k as int),
                decreases i - k,
            {
                out.push(c[k]);
                k = k + 1;
                assert(c@.take(k as int) =~= c@.take(k - 1).push(c@[k - 1]));
            }
            out
        },
        None => string_of(&c),
    }
}

/// The longest prefix of `s` of at most `n` bytes (see `cut_bytes`).
fn cut_bytes_of(s: &str, n: usize) -> (r: String)
    ensures
        r@ == cut_bytes(s@, n as nat),
{
    let c = chars_of(s);
    let mut out = String::new();
    let mut used: usize = 0;
    let mut i: usize = 0;
    assert(c@.skip(0) =~= c@);
    assert(c@.take(0) + cut_bytes(c@, n as nat) =~= cut_bytes(c@, n as nat));
    while i < c.len() && char_width_of(c[i]) <= n - used
        invariant
            i <= c.len(),
            used <= n,
            out@ == c@.take(i as int),
            cut_bytes(s@, n as nat) == c@.take(i as int) + cut_bytes(c@.skip(i as int), (n - used) as nat),
            c@ == s@,
        decreases c.len() - i,
    {
        let w = char_width_of(c[i]);
        proof {
            let rest = c@.skip(i as int);
            assert(rest[0] == c@[i as int]);
            assert(rest.drop_first() =~= c@.skip(i + 1));
            assert(c@.take(i as int) + seq![c@[i as int]] =~= c@.take(i + 1));
            assert(c@.take(i + 1) + cut_bytes(c@.skip(i + 1), (n - used - w) as nat) =~= c@.take(
                i as int,
            ) + (seq![c@[i as int]] + cut_bytes(c@.skip(i + 1), (n - used - w) as nat)));
        }
        out.push(c[i]);
        used = used + w;
        i = i + 1;
    }
    proof {
        if i < c.len() {
            assert(c@.skip(i as int)[0] == c@[i as int]);
        }
        assert(cut_bytes(c@.skip(i as int), (n - used) as nat) =~= Seq::<char>::empty());
        assert(c@.take(i as int) + Seq::<char>::empty() =~= c@.take(i as int));
    }
    out
}

/// The base of a new account's user name (see `google_base_name`); it
/// can always be cut to 16 bytes.
pub fn base_name_of(name: Option<&str>, email: Option<&str>, google_id: &str) -> (r: String)
    requires
        needs_id_name(str_opt(name), str_opt(email)) ==> byte_cut_ok(google_id@, 6),
    ensures
        r@ == google_base_name(str_opt(name), str_opt(email), google_id@),
        byte_cut_ok(r@, 16),
{
    proof {
        lemma_base_cut_ok(str_opt(name), str_opt(email), google_id@);
    }
    if let Some(n) = name {
        if let Some(b) = name_base_of(n) {
            return b;
        }
    }
    if let Some(e) = email {
        let lp = local_part_of(e);
        if let Some(b) = name_base_of(lp.as_str()) {
            return b;
        }
    }
    let mut out: Vec<char> = Vec::new();
    append_str(&mut out, "user_");
    let cut = cut_bytes_of(google_id, 6);
    append_str(&mut out, cut.as_str());
    string_of(&out)
}

proof fn lemma_short_text_is_kept(s: Seq<char>, n: nat)
    requires
        utf8_len(s) <= n,
    ensures
        cut_bytes(s, n) == s,
    decreases s.len(),
{
    if s.len() > 0 {
        lemma_utf8_len_prepend(s[0], s.drop_first());
        assert(seq![s[0]] + s.drop_first() =~= s);
        lemma_short_text_is_kept(s.drop_first(), (n - char_width(s[0])) as nat);
    }
}

/// Whether the first `n` bytes of `s` (all of them when it has fewer) end
/// on a character boundary.
fn byte_cut_fits(s: &str, n: usize) -> (r: bool)
    requires
        n <= 64,
    ensures
        r == byte_cut_ok(s@, n as nat),
{
    let cut = cut_bytes_of(s, n);
    proof {
        lemma_cut_bytes_fits(s@, n as nat);
        lemma_utf8_len_at_least_len(cut@);
        if utf8_len(s@) <= n {
            lemma_short_text_is_kept(s@, n as nat);
        }
    }
    if same_chars_str(cut.as_str(), s) {
        return true;
    }
    let cc = chars_of(cut.as_str());
    utf8_len_of(&cc) == n
}

/// The base name of a new account (see `base_name_of`), or `None` where
/// the Google id would have to be cut inside a character.
pub fn base_name_checked(name: Option<&str>, email: Option<&str>, google_id: &str) -> (r: Option<
    String,
>)
    ensures
        (needs_id_name(str_opt(name), str_opt(email)) && !byte_cut_ok(google_id@, 6)) ==> r is None,
        !(needs_id_name(str_opt(name), str_opt(email)) && !byte_cut_ok(google_id@, 6)) ==> (r matches Some(
            b,
        ) && b@ == google_base_name(str_opt(name), str_opt(email), google_id@)),
{
    let from_name = match name {
        Some(n) => name_base_of(n).is_some(),
        None => false,
    };
    let from_email = match email {
        Some(e) => {
            let lp = local_part_of(e);
            name_base_of(lp.as_str()).is_some()
        },
        None => false,
    };
    if !from_name && !from_email && !byte_cut_fits(google_id, 6) {
        return None;
    }
    Some(base_name_of(name, email, google_id))
}

/// The user name tried at `attempt` (see `username_candidate`).
pub fn username_attempt(base: &str, attempt: u32) -> (r: Option<String>)
    requires
        1 <= attempt < 100 ==> byte_cut_ok(base@, 16),
    ensures
        opt_view(r) == username_candidate(base@, attempt),
{
    if attempt == 0 {
        return Some(base.to_owned());
    }
    if attempt >= 100 {
        return None;
    }
    let mut out: Vec<char> = Vec::new();
    let cut = cut_bytes_of(base, 16);
    append_str(&mut out, cut.as_str());
    append_str(&mut out, "_");
    append_decimal(&mut out, attempt as u64);
    Some(string_of(&out))
}

/// The random user name used when every candidate is taken: `user_` and
/// the first eight bytes of a fresh UUID's text.
pub fn random_username(uuid_text: &str) -> (r: String)
    requires
        utf8_len(cut_bytes(uuid_text@, 8)) == 8,
    ensures
        r@ == "user_"@ + cut_bytes(uuid_text@, 8),
{
    let mut out: Vec<char> = Vec::new();
    append_str(&mut out, "user_");
    let cut = cut_bytes_of(uuid_text, 8);
    append_str(&mut out, cut.as_str());
    string_of(&out)
}

/// The throw-away password of an account created by Google sign-in:
/// `goog_`, a fresh UUID's text, `_` and a random number.
pub fn google_password(uuid_text: &str, n: u64) -> (r: String)
    ensures
        r@ == "goog_"@ + uuid_text@ + "_"@ + decimal(n as nat),
{
    let mut out: Vec<char> = Vec::new();
    append_str(&mut out, "goog_");
    append_str(&mut out, uuid_text);
    append_str(&mut out, "_");
    append_decimal(&mut out, n);
    string_of(&out)
}

} // verus!
