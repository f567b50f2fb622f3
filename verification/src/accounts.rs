//! Registration and password sign-in: what is taken from the request, and
//! how a refused request is answered.

use vstd::prelude::*;

use crate::auth::{
    bcrypt_accepts, password_problem, username_problem, validate_password, validate_username,
    verify_password, LoginRequest, RegisterRequest,
};
use crate::access::{
    login_gate, login_verdict, register_gate, register_key, ACCOUNT_PRUNE_LIMIT, REGISTER_MAX,
    REGISTER_WINDOW_MS, TOO_MANY_REGISTRATIONS,
};
use crate::status::HttpStatus;
use crate::throttle::{after_request, pruned, request_admitted, AttemptTable};
use crate::text::{trim, trimmed};

verus! {

broadcast use vstd::string::group_string_axioms;

pub const USER_EXISTS: &'static str = "Пользователь с таким логином уже существует";

pub const LOGIN_REQUIRED: &'static str = "Введите имя пользователя";

pub const PASSWORD_MISSING: &'static str = "Введите пароль";

pub const BAD_CREDENTIALS: &'static str = "Неверное имя пользователя или пароль";

pub const DATABASE_ERROR: &'static str = "Ошибка базы данных";

pub const HASH_FAILED: &'static str = "Не удалось захэшировать пароль";

pub const REGISTRATION_FAILED: &'static str = "Не удалось зарегистрировать пользователя";

pub const TOKEN_FAILED: &'static str = "Не удалось сгенерировать токен авторизации";

pub const USER_NOT_FOUND: &'static str = "Пользователь не найден";

/// What a registration request gives: the trimmed name and the trimmed
/// password, or the first rule it breaks (the name is checked first).
pub open spec fn registration_of(username: Seq<char>, password: Seq<char>) -> Result<
    (Seq<char>, Seq<char>),
    (HttpStatus, &'static str),
> {
    match username_problem(username) {
        Some(m) => Err((HttpStatus::BadRequest, m)),
        None => match password_problem(password) {
            Some(m) => Err((HttpStatus::BadRequest, m)),
            None => Ok((trim(username), trim(password))),
        },
    }
}

/// The user name to store and the password to hash for a registration.
pub fn registration_fields(req: &RegisterRequest) -> (r: Result<
    (String, String),
    (HttpStatus, &'static str),
>)
    ensures
        match registration_of(req.username@, req.password@) {
            Err(e) => r == Err::<(String, String), (HttpStatus, &'static str)>(e),
            Ok((u, p)) => (r matches Ok((a, b)) && a@ == u && b@ == p),
        },
{
    if let Err(m) = validate_username(req.username.as_str()) {
        return Err((HttpStatus::BadRequest, m));
    }
    let name = trimmed(req.username.as_str());
    if let Err(m) = validate_password(req.password.as_str()) {
        return Err((HttpStatus::BadRequest, m));
    }
    let password = trimmed(req.password.as_str());
    Ok((name, password))
}

/// What a login request gives: the trimmed login and password, refused
/// when either is blank (the login is checked first).
pub open spec fn login_of(login: Seq<char>, password: Seq<char>) -> Result<
    (Seq<char>, Seq<char>),
    (HttpStatus, &'static str),
> {
    if trim(login).len() == 0 {
        Err((HttpStatus::BadRequest, LOGIN_REQUIRED))
    } else if trim(password).len() == 0 {
        Err((HttpStatus::BadRequest, PASSWORD_MISSING))
    } else {
        Ok((trim(login), trim(password)))
    }
}

/// The user name to look up and the password to check for a login.
pub fn login_fields(req: &LoginRequest) -> (r: Result<(String, String), (HttpStatus, &'static str)>)
    ensures
        match login_of(req.login@, req.password@) {
            Err(e) => r == Err::<(String, String), (HttpStatus, &'static str)>(e),
            Ok((l, p)) => (r matches Ok((a, b)) && a@ == l && b@ == p),
        },
{
    let login = trimmed(req.login.as_str());
    if login.as_str().is_empty() {
        return Err((HttpStatus::BadRequest, LOGIN_REQUIRED));
    }
    let password = trimmed(req.password.as_str());
    if password.as_str().is_empty() {
        return Err((HttpStatus::BadRequest, PASSWORD_MISSING));
    }
    Ok((login, password))
}

/// Checks a login's password against the stored hash of the user found
/// (`None` when no user has that name); both failures get one answer.
pub fn check_credentials(password: &str, stored_hash: Option<&str>) -> (r: Result<
    (),
    (HttpStatus, &'static str),
>)
    ensures
        r is Ok <==> (stored_hash matches Some(h) && bcrypt_accepts(password@, h@)),
        r matches Err(e) ==> e == (HttpStatus::Unauthorized, BAD_CREDENTIALS),
{
    match stored_hash {
        Some(h) => if verify_password(password, h) {
            Ok(())
        } else {
            Err((HttpStatus::Unauthorized, BAD_CREDENTIALS))
        },
        None => Err((HttpStatus::Unauthorized, BAD_CREDENTIALS)),
    }
}

/// A user who registered with a password signs in with the same typed
/// password: registration hashes the trimmed password and login checks
/// the trimmed password, so a hash that accepts the one accepts the other.
pub proof fn law_registered_password_signs_in(
    username: Seq<char>,
    password: Seq<char>,
    login: Seq<char>,
    hash: Seq<char>,
)
    requires
        registration_of(username, password) is Ok,
        login_of(login, password) is Ok,
        bcrypt_accepts((registration_of(username, password)->Ok_0).1, hash),
    ensures
        bcrypt_accepts((login_of(login, password)->Ok_0).1, hash),
{
}

/// The first answer to a registration from `ip`: the address's
/// registration limit is checked (and the request counted) before the
/// name and password rules.
pub fn register_request(
    attempts: &mut AttemptTable,
    ip: &str,
    req: &RegisterRequest,
    now: u64,
) -> (r: Result<(String, String), (HttpStatus, &'static str)>)
    requires
        old(attempts).wf(),
    ensures
        final(attempts).wf(),
        final(attempts)@ == after_request(
            old(attempts)@,
            register_key(ip@),
            ACCOUNT_PRUNE_LIMIT as nat,
            now,
            REGISTER_WINDOW_MS,
        ),
        !request_admitted(
            old(attempts)@,
            register_key(ip@),
            ACCOUNT_PRUNE_LIMIT as nat,
            now,
            REGISTER_WINDOW_MS,
            REGISTER_MAX,
        ) ==> r == Err::<(String, String), (HttpStatus, &'static str)>(
            (HttpStatus::TooManyRequests, TOO_MANY_REGISTRATIONS),
        ),
        request_admitted(
            old(attempts)@,
            register_key(ip@),
            ACCOUNT_PRUNE_LIMIT as nat,
            now,
            REGISTER_WINDOW_MS,
            REGISTER_MAX,
        ) ==> match registration_of(req.username@, req.password@) {
            Err(e) => r == Err::<(String, String), (HttpStatus, &'static str)>(e),
            Ok((u, p)) => (r matches Ok((a, b)) && a@ == u && b@ == p),
        },
{
    match register_gate(attempts, ip, now) {
        Err(e) => Err(e),
        Ok(()) => registration_fields(req),
    }
}

/// The first answer to a password login from `ip`: the login/address and
/// address locks are checked before the login and password are read.
pub fn login_request(
    attempts: &mut AttemptTable,
    req: &LoginRequest,
    ip: &str,
    now: u64,
) -> (r: Result<(String, String), (HttpStatus, &'static str)>)
    requires
        old(attempts).wf(),
    ensures
        final(attempts).wf(),
        final(attempts)@ == pruned(old(attempts)@, ACCOUNT_PRUNE_LIMIT as nat, now, crate::access::LOGIN_WINDOW_MS),
        login_verdict(final(attempts)@, req.login@, ip@, now) matches Err(e) ==> r == Err::<
            (String, String),
            (HttpStatus, &'static str),
        >(e),
        login_verdict(final(attempts)@, req.login@, ip@, now) is Ok ==> match login_of(
            req.login@,
            req.password@,
        ) {
            Err(e) => r == Err::<(String, String), (HttpStatus, &'static str)>(e),
            Ok((l, p)) => (r matches Ok((a, b)) && a@ == l && b@ == p),
        },
{
    match login_gate(attempts, req.login.as_str(), ip, now) {
        Err(e) => Err(e),
        Ok(()) => login_fields(req),
    }
}

} // verus!
