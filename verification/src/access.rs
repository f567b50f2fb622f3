//! Throttling of the account endpoints: registration, password login and
//! Google sign-in, all sharing one table of attempts per client.

use vstd::prelude::*;

use crate::status::HttpStatus;
use crate::text::{append_str, chars_of, lowercase, string_of, to_lowercase, trim, trimmed};
use crate::throttle::{after_request, elapsed, hit_record, is_stale, lemma_pruned_get, pruned, request_admitted, throttle, AttemptTable};

verus! {

broadcast use vstd::string::group_string_axioms;

/// Size of the attempts table above which stale records are dropped.
pub const ACCOUNT_PRUNE_LIMIT: usize = 2000;

/// Registrations counted per address: ten minutes, at most five.
pub const REGISTER_WINDOW_MS: u64 = 600000;

pub const REGISTER_MAX: u32 = 5;

/// Failed logins are counted over five minutes.
pub const LOGIN_WINDOW_MS: u64 = 300000;

/// Failures after which a login/address pair is locked.
pub const ACCOUNT_LOCK_AFTER: u32 = 5;

/// Failures after which an address is locked.
pub const ADDRESS_LOCK_AFTER: u32 = 20;

/// Google sign-ins per address in five minutes.
pub const GOOGLE_MAX: u32 = 20;

pub const TOO_MANY_REGISTRATIONS: &'static str =
    "Слишком много попыток регистрации. Подождите 10 минут.";

pub const ACCOUNT_LOCKED: &'static str =
    "Слишком много неудачных попыток входа для этой связки логина и IP. Подождите 5 минут.";

pub const ADDRESS_LOCKED: &'static str =
    "Слишком много неудачных запросов с вашего IP. Подождите 5 минут.";

pub const TOO_MANY_GOOGLE_LOGINS: &'static str =
    "Слишком много попыток входа через Google. Подождите 5 минут.";

pub open spec fn register_key(ip: Seq<char>) -> Seq<char> {
    "reg:"@ + ip
}

pub open spec fn google_key(ip: Seq<char>) -> Seq<char> {
    "g_ip:"@ + ip
}

pub open spec fn address_key(ip: Seq<char>) -> Seq<char> {
    "ip:"@ + ip
}

/// The normalised login name: trimmed, then lower-cased.
pub open spec fn clean_login(login: Seq<char>) -> Seq<char> {
    lowercase(trim(login))
}

pub open spec fn account_key(login: Seq<char>, ip: Seq<char>) -> Seq<char> {
    "acct_ip:"@ + clean_login(login) + ":"@ + ip
}

fn prefixed(prefix: &str, rest: &str) -> (r: String)
    ensures
        r@ == prefix@ + rest@,
{
    let mut v = chars_of(prefix);
    append_str(&mut v, rest);
    string_of(&v)
}

fn account_key_of(login: &str, ip: &str) -> (r: String)
    ensures
        r@ == account_key(login@, ip@),
{
    let t = trimmed(login);
    let l = to_lowercase(t.as_str());
    let mut v = chars_of("acct_ip:");
    append_str(&mut v, l.as_str());
    append_str(&mut v, ":");
    append_str(&mut v, ip);
    string_of(&v)
}

fn clean_login_of(login: &str) -> (r: String)
    ensures
        r@ == clean_login(login@),
{
    let t = trimmed(login);
    to_lowercase(t.as_str())
}

/// Counts a registration from `ip`; refused once more than five were
/// counted in the current ten-minute window.
pub fn register_gate(attempts: &mut AttemptTable, ip: &str, now: u64) -> (r: Result<
    (),
    (HttpStatus, &'static str),
>)
    requires
        old(attempts).wf(),
    ensures
        final(attempts).wf(),
        final(attempts)@ == after_request(
            old(attempts)@,
            register_key(ip@),
            ACCOUNT_PRUNE_LIMIT as nat,
            now,
            REGISTER_WINDOW_MS,
        ),
        r is Ok <==> request_admitted(
            old(attempts)@,
            register_key(ip@),
            ACCOUNT_PRUNE_LIMIT as nat,
            now,
            REGISTER_WINDOW_MS,
            REGISTER_MAX,
        ),
        r matches Err(e) ==> e == (HttpStatus::TooManyRequests, TOO_MANY_REGISTRATIONS),
{
    let key = prefixed("reg:", ip);
    match throttle(attempts, key.as_str(), REGISTER_MAX, REGISTER_WINDOW_MS, ACCOUNT_PRUNE_LIMIT, now) {
        Ok(()) => Ok(()),
        Err(_) => Err((HttpStatus::TooManyRequests, TOO_MANY_REGISTRATIONS)),
    }
}

/// Counts a Google sign-in from `ip`; refused once more than twenty were
/// counted in the current five-minute window.
pub fn google_gate(attempts: &mut AttemptTable, ip: &str, now: u64) -> (r: Result<
    (),
    (HttpStatus, &'static str),
>)
    requires
        old(attempts).wf(),
    ensures
        final(attempts).wf(),
        final(attempts)@ == after_request(
            old(attempts)@,
            google_key(ip@),
            ACCOUNT_PRUNE_LIMIT as nat,
            now,
            LOGIN_WINDOW_MS,
        ),
        r is Ok <==> request_admitted(
            old(attempts)@,
            google_key(ip@),
            ACCOUNT_PRUNE_LIMIT as nat,
            now,
            LOGIN_WINDOW_MS,
            GOOGLE_MAX,
        ),
        r matches Err(e) ==> e == (HttpStatus::TooManyRequests, TOO_MANY_GOOGLE_LOGINS),
{
    let key = prefixed("g_ip:", ip);
    match throttle(attempts, key.as_str(), GOOGLE_MAX, LOGIN_WINDOW_MS, ACCOUNT_PRUNE_LIMIT, now) {
        Ok(()) => Ok(()),
        Err(_) => Err((HttpStatus::TooManyRequests, TOO_MANY_GOOGLE_LOGINS)),
    }
}

/// `key` holds a live record with at least `threshold` failures.
pub open spec fn locked(
    m: Map<Seq<char>, (u32, u64)>,
    key: Seq<char>,
    now: u64,
    threshold: u32,
) -> bool {
    m.get(key) matches Some(rec) && !is_stale(rec, now, LOGIN_WINDOW_MS) && rec.0 >= threshold
}

/// The answer to a login attempt before the password is looked at, over
/// the table after its clean-up.
pub open spec fn login_verdict(
    m: Map<Seq<char>, (u32, u64)>,
    login: Seq<char>,
    ip: Seq<char>,
    now: u64,
) -> Result<(), (HttpStatus, &'static str)> {
    if clean_login(login).len() > 0 && locked(m, account_key(login, ip), now, ACCOUNT_LOCK_AFTER) {
        Err((HttpStatus::TooManyRequests, ACCOUNT_LOCKED))
    } else if locked(m, address_key(ip), now, ADDRESS_LOCK_AFTER) {
        Err((HttpStatus::TooManyRequests, ADDRESS_LOCKED))
    } else {
        Ok(())
    }
}

/// Refuses a login from a locked login/address pair or a locked address.
pub fn login_gate(attempts: &mut AttemptTable, login: &str, ip: &str, now: u64) -> (r: Result<
    (),
    (HttpStatus, &'static str),
>)
    requires
        old(attempts).wf(),
    ensures
        final(attempts).wf(),
        final(attempts)@ == pruned(old(attempts)@, ACCOUNT_PRUNE_LIMIT as nat, now, LOGIN_WINDOW_MS),
        r == login_verdict(final(attempts)@, login@, ip@, now),
{
    attempts.prune_if_over(ACCOUNT_PRUNE_LIMIT, now, LOGIN_WINDOW_MS);
    let clean = clean_login_of(login);
    if !clean.as_str().is_empty() {
        let acct = account_key_of(login, ip);
        if attempts.is_blocked(acct.as_str(), now, LOGIN_WINDOW_MS, ACCOUNT_LOCK_AFTER) {
            return Err((HttpStatus::TooManyRequests, ACCOUNT_LOCKED));
        }
    }
    let addr = prefixed("ip:", ip);
    if attempts.is_blocked(addr.as_str(), now, LOGIN_WINDOW_MS, ADDRESS_LOCK_AFTER) {
        return Err((HttpStatus::TooManyRequests, ADDRESS_LOCKED));
    }
    Ok(())
}

/// The table after one failed login: the login/address pair (when the
/// login is not blank) and the address each count one more failure.
pub open spec fn after_failure(
    m: Map<Seq<char>, (u32, u64)>,
    login: Seq<char>,
    ip: Seq<char>,
    now: u64,
) -> Map<Seq<char>, (u32, u64)> {
    let m1 = if clean_login(login).len() > 0 {
        m.insert(
            account_key(login, ip),
            hit_record(m.get(account_key(login, ip)), now, LOGIN_WINDOW_MS),
        )
    } else {
        m
    };
    m1.insert(address_key(ip), hit_record(m1.get(address_key(ip)), now, LOGIN_WINDOW_MS))
}

/// Records a failed login (unknown user or wrong password).
pub fn record_login_failure(attempts: &mut AttemptTable, login: &str, ip: &str, now: u64)
    requires
        old(attempts).wf(),
    ensures
        final(attempts).wf(),
        final(attempts)@ == after_failure(old(attempts)@, login@, ip@, now),
{
    let clean = clean_login_of(login);
    if !clean.as_str().is_empty() {
        let acct = account_key_of(login, ip);
        let _ = attempts.hit(acct.as_str(), now, LOGIN_WINDOW_MS);
    }
    let addr = prefixed("ip:", ip);
    let _ = attempts.hit(addr.as_str(), now, LOGIN_WINDOW_MS);
}

/// Records a successful login: the failures of the login/address pair
/// are forgotten (those of the address are kept).
pub fn record_login_success(attempts: &mut AttemptTable, login: &str, ip: &str)
    requires
        old(attempts).wf(),
    ensures
        final(attempts).wf(),
        final(attempts)@ == old(attempts)@.remove(account_key(login@, ip@)),
{
    let acct = account_key_of(login, ip);
    attempts.remove(acct.as_str());
}

/// The table after failed logins of `login` from `ip` at `times`.
pub open spec fn after_failures(
    m: Map<Seq<char>, (u32, u64)>,
    login: Seq<char>,
    ip: Seq<char>,
    times: Seq<u64>,
) -> Map<Seq<char>, (u32, u64)>
    decreases times.len(),
{
    if times.len() == 0 {
        m
    } else {
        after_failure(after_failures(m, login, ip, times.drop_last()), login, ip, times.last())
    }
}

proof fn lemma_keys_differ(login: Seq<char>, ip: Seq<char>)
    ensures
        account_key(login, ip) != address_key(ip),
{
    reveal_strlit("acct_ip:");
    reveal_strlit("ip:");
    assert(account_key(login, ip)[0] == 'a');
    assert(address_key(ip)[0] == 'i');
}

proof fn lemma_failures_count(
    m: Map<Seq<char>, (u32, u64)>,
    login: Seq<char>,
    ip: Seq<char>,
    times: Seq<u64>,
)
    requires
        m.get(account_key(login, ip)) is None,
        clean_login(login).len() > 0,
        0 < times.len() <= u32::MAX,
        forall|i: int, j: int| 0 <= i <= j < times.len() ==> times[i] <= times[j],
        times.last() - times[0] <= LOGIN_WINDOW_MS,
    ensures
        after_failures(m, login, ip, times).get(account_key(login, ip)) == Some(
            (times.len() as u32, times[0]),
        ),
    decreases times.len(),
{
    lemma_keys_differ(login, ip);
    let prev = times.drop_last();
    let mp = after_failures(m, login, ip, prev);
    let t = times.last();
    let acct = account_key(login, ip);
    if times.len() > 1 {
        lemma_failures_count(m, login, ip, prev);
        assert(prev.last() == times[times.len() - 2]);
        assert(prev[0] == times[0]);
        assert(mp.get(acct) == Some(((times.len() - 1) as u32, times[0])));
        assert(!is_stale(((times.len() - 1) as u32, times[0]), t, LOGIN_WINDOW_MS));
    } else {
        assert(mp == m);
    }
    let m1 = mp.insert(acct, hit_record(mp.get(acct), t, LOGIN_WINDOW_MS));
    assert(after_failures(m, login, ip, times) == m1.insert(
        address_key(ip),
        hit_record(m1.get(address_key(ip)), t, LOGIN_WINDOW_MS),
    ));
    assert(m1.get(acct) == Some(hit_record(mp.get(acct), t, LOGIN_WINDOW_MS)));
}

/// Five failed logins of one login name from one address within five
/// minutes lock that pair: until five minutes after the first of them,
/// the next attempt is refused before its password is checked.
pub proof fn law_failures_lock_account(
    m: Map<Seq<char>, (u32, u64)>,
    login: Seq<char>,
    ip: Seq<char>,
    times: Seq<u64>,
    now: u64,
)
    requires
        m.get(account_key(login, ip)) is None,
        clean_login(login).len() > 0,
        ACCOUNT_LOCK_AFTER <= times.len() <= u32::MAX,
        forall|i: int, j: int| 0 <= i <= j < times.len() ==> times[i] <= times[j],
        times[0] <= now,
        now - times[0] <= LOGIN_WINDOW_MS,
        times.last() <= now,
    ensures
        login_verdict(
            pruned(
                after_failures(m, login, ip, times),
                ACCOUNT_PRUNE_LIMIT as nat,
                now,
                LOGIN_WINDOW_MS,
            ),
            login,
            ip,
            now,
        ) == Err::<(), (HttpStatus, &'static str)>((HttpStatus::TooManyRequests, ACCOUNT_LOCKED)),
{
    lemma_failures_count(m, login, ip, times);
    let fm = after_failures(m, login, ip, times);
    lemma_pruned_get(fm, account_key(login, ip), ACCOUNT_PRUNE_LIMIT as nat, now, LOGIN_WINDOW_MS);
}

/// After a successful login the pair's failures are gone: only the
/// address's own count can still refuse the next attempt.
pub proof fn law_success_unlocks_account(
    m: Map<Seq<char>, (u32, u64)>,
    login: Seq<char>,
    ip: Seq<char>,
    now: u64,
)
    ensures
        !locked(
            pruned(
                m.remove(account_key(login, ip)),
                ACCOUNT_PRUNE_LIMIT as nat,
                now,
                LOGIN_WINDOW_MS,
            ),
            account_key(login, ip),
            now,
            ACCOUNT_LOCK_AFTER,
        ),
{
    lemma_pruned_get(
        m.remove(account_key(login, ip)),
        account_key(login, ip),
        ACCOUNT_PRUNE_LIMIT as nat,
        now,
        LOGIN_WINDOW_MS,
    );
}

} // verus!
