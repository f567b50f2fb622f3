use recro::accounts::{login_request, register_request, LOGIN_REQUIRED};
use recro::auth::{LoginRequest, RegisterRequest, USERNAME_TOO_SHORT};
use recro::google::{google_request, GoogleProblem};
use recro::access::{
    google_gate, login_gate, record_login_failure, record_login_success, register_gate,
    ACCOUNT_LOCKED, ADDRESS_LOCKED, TOO_MANY_GOOGLE_LOGINS, TOO_MANY_REGISTRATIONS,
};
use recro::requests::{limit_request, Endpoint};
use recro::status::HttpStatus;
use recro::throttle::{check_rate_limit, window_ms, AttemptTable};

#[test]
fn limit_admits_max_requests_per_window() {
    let mut t = AttemptTable::new();
    for i in 0..5u64 {
        assert_eq!(check_rate_limit(&mut t, "k", 5, 60, 1_000 + i), Ok(()));
    }
    assert_eq!(check_rate_limit(&mut t, "k", 5, 60, 2_000), Err(HttpStatus::TooManyRequests));
    assert_eq!(t.get("k"), Some((6, 1_000)));
}

#[test]
fn window_restarts_after_it_ends() {
    let mut t = AttemptTable::new();
    for _ in 0..3 {
        let _ = check_rate_limit(&mut t, "k", 2, 60, 0);
    }
    assert_eq!(check_rate_limit(&mut t, "k", 2, 60, 60_000), Err(HttpStatus::TooManyRequests));
    assert_eq!(check_rate_limit(&mut t, "k", 2, 60, 60_001), Ok(()));
    assert_eq!(t.get("k"), Some((1, 60_001)));
}

#[test]
fn other_keys_are_not_touched() {
    let mut t = AttemptTable::new();
    let _ = check_rate_limit(&mut t, "a", 1, 60, 0);
    let _ = check_rate_limit(&mut t, "a", 1, 60, 1);
    assert_eq!(check_rate_limit(&mut t, "b", 1, 60, 2), Ok(()));
    assert_eq!(t.get("a"), Some((2, 0)));
    assert_eq!(t.get("b"), Some((1, 2)));
    assert_eq!(t.len(), 2);
}

#[test]
fn table_hit_and_remove() {
    let mut t = AttemptTable::new();
    assert_eq!(t.hit("x", 10, 100), (1, false));
    assert_eq!(t.hit("x", 20, 100), (2, false));
    assert!(t.is_blocked("x", 50, 100, 2));
    assert!(!t.is_blocked("x", 50, 100, 3));
    assert!(!t.is_blocked("x", 111, 100, 2));
    assert_eq!(t.hit("x", 111, 100), (1, true));
    t.remove("x");
    assert_eq!(t.get("x"), None);
    assert_eq!(window_ms(60), 60_000);
    assert_eq!(window_ms(u64::MAX), u64::MAX);
}

#[test]
fn stale_records_are_pruned_only_over_the_limit() {
    let mut t = AttemptTable::new();
    t.hit("old", 0, 100);
    t.hit("new", 500, 100);
    t.prune_if_over(5, 550, 100);
    assert_eq!(t.len(), 2);
    t.prune_if_over(1, 550, 100);
    assert_eq!(t.get("old"), None);
    assert_eq!(t.get("new"), Some((1, 500)));
}

#[test]
fn sixth_registration_in_ten_minutes_is_refused() {
    let mut t = AttemptTable::new();
    for i in 0..5u64 {
        assert_eq!(register_gate(&mut t, "1.2.3.4", i), Ok(()));
    }
    assert_eq!(
        register_gate(&mut t, "1.2.3.4", 10),
        Err((HttpStatus::TooManyRequests, TOO_MANY_REGISTRATIONS))
    );
    assert_eq!(register_gate(&mut t, "5.6.7.8", 10), Ok(()));
    assert_eq!(register_gate(&mut t, "1.2.3.4", 600_001), Ok(()));
}

#[test]
fn twenty_first_google_sign_in_is_refused() {
    let mut t = AttemptTable::new();
    for i in 0..20u64 {
        assert_eq!(google_gate(&mut t, "ip", i), Ok(()));
    }
    assert_eq!(
        google_gate(&mut t, "ip", 30),
        Err((HttpStatus::TooManyRequests, TOO_MANY_GOOGLE_LOGINS))
    );
}

#[test]
fn five_failures_lock_the_login_from_that_address() {
    let mut t = AttemptTable::new();
    for i in 0..5u64 {
        assert_eq!(login_gate(&mut t, "Alex", "9.9.9.9", i), Ok(()));
        record_login_failure(&mut t, "  Alex ", "9.9.9.9", i);
    }
    assert_eq!(
        login_gate(&mut t, "alex", "9.9.9.9", 10),
        Err((HttpStatus::TooManyRequests, ACCOUNT_LOCKED))
    );
    // another address is not locked for that login
    assert_eq!(login_gate(&mut t, "alex", "8.8.8.8", 10), Ok(()));
    // the lock ends with the window
    assert_eq!(login_gate(&mut t, "alex", "9.9.9.9", 300_005), Ok(()));
}

#[test]
fn success_clears_the_login_lock_but_not_the_address_count() {
    let mut t = AttemptTable::new();
    for i in 0..5u64 {
        record_login_failure(&mut t, "bob", "1.1.1.1", i);
    }
    record_login_success(&mut t, "bob", "1.1.1.1");
    assert_eq!(login_gate(&mut t, "bob", "1.1.1.1", 10), Ok(()));
    assert_eq!(t.get("ip:1.1.1.1"), Some((5, 0)));
}

#[test]
fn twenty_failures_lock_the_address() {
    let mut t = AttemptTable::new();
    for i in 0..20u64 {
        record_login_failure(&mut t, "", "2.2.2.2", i);
    }
    assert_eq!(
        login_gate(&mut t, "someone", "2.2.2.2", 30),
        Err((HttpStatus::TooManyRequests, ADDRESS_LOCKED))
    );
}

#[test]
fn endpoint_limits_differ() {
    let mut t = AttemptTable::new();
    for i in 0..30u64 {
        assert_eq!(limit_request(&mut t, Endpoint::Search, "ip", i), Ok(()));
    }
    assert_eq!(limit_request(&mut t, Endpoint::Search, "ip", 40), Err(HttpStatus::TooManyRequests));
    for i in 0..25u64 {
        assert_eq!(limit_request(&mut t, Endpoint::Extract, "ip", i), Ok(()));
    }
    assert_eq!(limit_request(&mut t, Endpoint::Extract, "ip", 40), Err(HttpStatus::TooManyRequests));
    for i in 0..40u64 {
        assert_eq!(limit_request(&mut t, Endpoint::Stream, "ip", i), Ok(()));
    }
    assert_eq!(limit_request(&mut t, Endpoint::Stream, "ip", 40), Err(HttpStatus::TooManyRequests));
    for i in 0..60u64 {
        assert_eq!(limit_request(&mut t, Endpoint::HistoryRecord, "user-1", i), Ok(()));
    }
    assert_eq!(
        limit_request(&mut t, Endpoint::HistoryRecord, "user-1", 40),
        Err(HttpStatus::TooManyRequests)
    );
    assert_eq!(t.get("history_record:user-1"), Some((61, 0)));
    assert_eq!(t.get("search:ip"), Some((31, 0)));
}

#[test]
fn window_counts_from_a_stale_record_with_other_keys_between() {
    let mut t = AttemptTable::new();
    for _ in 0..9 {
        let _ = check_rate_limit(&mut t, "k", 3, 10, 0);
    }
    // the old window is over: counting starts again at 20_000
    let mut answers = Vec::new();
    for i in 0..5u64 {
        answers.push(check_rate_limit(&mut t, "k", 3, 10, 20_000 + 2 * i));
        assert_eq!(check_rate_limit(&mut t, "other", 1, 10, 20_001 + 2 * i).is_ok(), i == 0);
    }
    assert_eq!(
        answers,
        vec![Ok(()), Ok(()), Ok(()), Err(HttpStatus::TooManyRequests), Err(HttpStatus::TooManyRequests)]
    );
    assert_eq!(t.get("k"), Some((5, 20_000)));
    // with no request allowed, only a restart of a stale window passes
    assert_eq!(check_rate_limit(&mut t, "k", 0, 10, 40_000), Ok(()));
    assert_eq!(check_rate_limit(&mut t, "k", 0, 10, 40_001), Err(HttpStatus::TooManyRequests));
    assert_eq!(check_rate_limit(&mut t, "fresh", 0, 10, 40_002), Err(HttpStatus::TooManyRequests));
}

#[test]
fn account_requests_check_limits_before_fields() {

    let mut t = AttemptTable::new();
    let bad = RegisterRequest { username: "al".to_string(), password: "secret1".to_string() };
    for i in 0..5u64 {
        assert_eq!(register_request(&mut t, "ip", &bad, i), Err((HttpStatus::BadRequest, USERNAME_TOO_SHORT)));
    }
    assert_eq!(
        register_request(&mut t, "ip", &bad, 6),
        Err((HttpStatus::TooManyRequests, TOO_MANY_REGISTRATIONS))
    );
    let good = RegisterRequest { username: " alex_1 ".to_string(), password: "secret1".to_string() };
    assert_eq!(
        register_request(&mut t, "ip2", &good, 7),
        Ok(("alex_1".to_string(), "secret1".to_string()))
    );

    let mut t = AttemptTable::new();
    let empty = LoginRequest { login: "  ".to_string(), password: "x".to_string() };
    assert_eq!(login_request(&mut t, &empty, "ip", 0), Err((HttpStatus::BadRequest, LOGIN_REQUIRED)));
    for i in 0..20u64 {
        record_login_failure(&mut t, "", "ip", i);
    }
    assert_eq!(login_request(&mut t, &empty, "ip", 30), Err((HttpStatus::TooManyRequests, ADDRESS_LOCKED)));

    let mut t = AttemptTable::new();
    assert_eq!(google_request(&mut t, "ip", None, "cred", 0), Err(GoogleProblem::Disabled.message()));
    assert_eq!(
        google_request(&mut t, "ip", Some(" id "), "  ", 1),
        Err(GoogleProblem::MissingCredential.message())
    );
    assert_eq!(
        google_request(&mut t, "ip", Some(" id "), " c ", 2),
        Ok(("id".to_string(), "c".to_string()))
    );
    for i in 3..20u64 {
        let _ = google_request(&mut t, "ip", None, "", i);
    }
    assert_eq!(
        google_request(&mut t, "ip", Some("id"), "c", 21),
        Err((HttpStatus::TooManyRequests, TOO_MANY_GOOGLE_LOGINS))
    );
}
