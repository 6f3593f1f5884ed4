use nitpanel::auth::{
    change_admin_password, finish_login, hash_password, initial_admin_password, login_attempt,
    random_alnum, strong_enough, verify_admin_pass, ChangePassError, LoginAttempts, LoginOutcome,
};
use nitpanel::guard::{
    check_nonce, check_rate_limit, check_rate_limit_at, generate_csrf_token, issue_csrf_token,
    verify_csrf, verify_csrf_at, CsrfTokens, NonceLog, RateLimits,
};

#[test]
fn rate_limit_window() {
    let mut limits = RateLimits::new();
    for _ in 0..30 {
        assert!(check_rate_limit_at(&mut limits, "1.2.3.4", false, 1000));
    }
    assert!(!check_rate_limit_at(&mut limits, "1.2.3.4", false, 1030));
    assert!(!check_rate_limit_at(&mut limits, "1.2.3.4", false, 1060));
    // another address has its own window
    assert!(check_rate_limit_at(&mut limits, "5.6.7.8", false, 1030));
    // a new window starts once more than 60 seconds have passed
    assert!(check_rate_limit_at(&mut limits, "1.2.3.4", false, 1061));
    assert_eq!(limits.get("1.2.3.4").map(|e| (e.window_start, e.count)), Some((1061, 1)));
}

#[test]
fn rate_limit_authenticated_allowance() {
    let mut limits = RateLimits::new();
    for _ in 0..120 {
        assert!(check_rate_limit_at(&mut limits, "ip", true, 50));
    }
    assert!(!check_rate_limit_at(&mut limits, "ip", true, 50));
}

#[test]
fn rate_limit_refusal_keeps_count() {
    let mut limits = RateLimits::new();
    for _ in 0..31 {
        check_rate_limit_at(&mut limits, "ip", false, 7);
    }
    assert_eq!(limits.get("ip").map(|e| e.count), Some(30));
}

#[test]
fn rate_limit_with_clock() {
    let mut limits = RateLimits::new();
    assert_eq!(check_rate_limit(&mut limits, "ip", false), Some(true));
}

#[test]
fn csrf_tokens_expire_after_an_hour() {
    let mut tokens = CsrfTokens::new();
    issue_csrf_token(&mut tokens, "tok", 1000);
    assert!(verify_csrf_at(&tokens, "tok", 1000));
    assert!(verify_csrf_at(&tokens, "tok", 4599));
    assert!(!verify_csrf_at(&tokens, "tok", 4600));
    assert!(!verify_csrf_at(&tokens, "other", 1000));
    assert!(!verify_csrf_at(&tokens, "", 1000));
}

#[test]
fn csrf_issue_drops_expired() {
    let mut tokens = CsrfTokens::new();
    issue_csrf_token(&mut tokens, "old", 0);
    issue_csrf_token(&mut tokens, "new", 5000);
    assert_eq!(tokens.get("old"), None);
    assert_eq!(tokens.get("new"), Some(8600));
    assert_eq!(tokens.len(), 1);
}

#[test]
fn csrf_expiry_stops_at_clock_end() {
    let mut tokens = CsrfTokens::new();
    issue_csrf_token(&mut tokens, "late", u64::MAX - 10);
    assert_eq!(tokens.get("late"), Some(u64::MAX));
    assert!(verify_csrf_at(&tokens, "late", u64::MAX - 1));
}

#[test]
fn csrf_fresh_token() {
    let mut tokens = CsrfTokens::new();
    let t = generate_csrf_token(&mut tokens);
    assert_eq!(t.len(), 36);
    assert!(verify_csrf(&tokens, &t));
    assert!(!verify_csrf(&tokens, ""));
}

#[test]
fn nonces_are_single_use() {
    let mut log = NonceLog { used: Vec::new() };
    assert!(check_nonce(&mut log, "abcdefghijklmnop"));
    assert!(!check_nonce(&mut log, "abcdefghijklmnop"));
    assert!(!check_nonce(&mut log, "short"));
    assert!(!check_nonce(&mut log, "abcdefghijklmnop!"));
    assert!(check_nonce(&mut log, "ABC-def_0123456789"));
    assert_eq!(log.used, vec!["abcdefghijklmnop".to_string(), "ABC-def_0123456789".to_string()]);
    assert!(!check_nonce(&mut log, &"a".repeat(129)));
    assert!(check_nonce(&mut log, &"a".repeat(128)));
}

#[test]
fn nonce_log_keeps_the_last_thousand() {
    let mut log = NonceLog { used: Vec::new() };
    for i in 0..1001 {
        assert!(check_nonce(&mut log, &format!("nonce-{:010}", i)));
    }
    assert_eq!(log.used.len(), 1000);
    assert_eq!(log.used[0], format!("nonce-{:010}", 1));
    // the forgotten nonce is accepted again
    assert!(check_nonce(&mut log, &format!("nonce-{:010}", 0)));
}

#[test]
fn random_passwords() {
    let p = random_alnum(24);
    assert_eq!(p.len(), 24);
    assert!(p.chars().all(|c| c.is_ascii_alphanumeric()));
    assert_eq!(random_alnum(0), "");
}

#[test]
fn first_admin_password() {
    assert_eq!(initial_admin_password(Some("longenough")), "longenough");
    let short = initial_admin_password(Some("short"));
    assert_eq!(short.len(), 20);
    assert!(short.chars().all(|c| c.is_ascii_alphanumeric()));
    assert_eq!(initial_admin_password(None).len(), 20);
}

#[test]
fn password_policy() {
    assert!(strong_enough("Abcdefgh12"));
    assert!(!strong_enough("Abcdefg12"));
    assert!(!strong_enough("abcdefgh12"));
    assert!(!strong_enough("ABCDEFGH12"));
    assert!(!strong_enough("Abcdefghij"));
}

#[test]
fn bcrypt_round_trip() {
    let h = hash_password("Secret123!");
    assert!(verify_admin_pass(&h, "Secret123!"));
    assert!(!verify_admin_pass(&h, "secret123!"));
    assert!(!verify_admin_pass("not a hash", "Secret123!"));
}

#[test]
fn login_lockout_after_five_failures() {
    let mut attempts = LoginAttempts::new();
    for n in 1..=4u32 {
        match finish_login(&mut attempts, "9.9.9.9", false, 100) {
            LoginOutcome::Rejected { failures, locked } => {
                assert_eq!(failures, n);
                assert!(!locked);
            }
            _ => panic!("expected a rejection"),
        }
    }
    match finish_login(&mut attempts, "9.9.9.9", false, 100) {
        LoginOutcome::Rejected { failures, locked } => {
            assert_eq!(failures, 5);
            assert!(locked);
        }
        _ => panic!("expected a rejection"),
    }
    // while locked, the password is not even looked at
    assert!(matches!(
        login_attempt(&mut attempts, "9.9.9.9", "Right-pass1", "unused", 200),
        LoginOutcome::Locked(200)
    ));
    assert!(matches!(
        login_attempt(&mut attempts, "9.9.9.9", "Right-pass1", "unused", 399),
        LoginOutcome::Locked(1)
    ));
    // after five minutes the lock is gone and the record restarts
    let h = hash_password("Right-pass1");
    assert!(matches!(
        login_attempt(&mut attempts, "9.9.9.9", "Right-pass1", &h, 400),
        LoginOutcome::Accepted
    ));
    assert!(attempts.get("9.9.9.9").is_none());
}

#[test]
fn login_malformed_passwords() {
    let mut attempts = LoginAttempts::new();
    assert!(matches!(login_attempt(&mut attempts, "ip", "", "not a hash", 1), LoginOutcome::Malformed));
    assert!(matches!(
        login_attempt(&mut attempts, "ip", &"x".repeat(257), "not a hash", 1),
        LoginOutcome::Malformed
    ));
    // a malformed attempt is not counted as a failure; a malformed hash
    // matches nothing
    match login_attempt(&mut attempts, "ip", "wrong", "not a hash", 1) {
        LoginOutcome::Rejected { failures, .. } => assert_eq!(failures, 1),
        _ => panic!("expected a rejection"),
    }
}

#[test]
fn login_success_clears_record() {
    let mut attempts = LoginAttempts::new();
    assert!(matches!(finish_login(&mut attempts, "ip", false, 10), LoginOutcome::Rejected { failures: 1, locked: false }));
    assert!(matches!(finish_login(&mut attempts, "ip", true, 11), LoginOutcome::Accepted));
    assert!(attempts.get("ip").is_none());
}

#[test]
fn change_password_rules() {
    let mut h = hash_password("Current-1pass");
    let before = h.clone();
    assert!(matches!(change_admin_password(&mut h, "Current-1pass", "Short1A"), Err(ChangePassError::TooShort)));
    assert!(matches!(change_admin_password(&mut h, "Current-1pass", "alllowercase1"), Err(ChangePassError::TooSimple)));
    assert!(matches!(change_admin_password(&mut h, "wrong", "NewPassword12"), Err(ChangePassError::WrongCurrent)));
    assert_eq!(h, before);
    assert!(change_admin_password(&mut h, "Current-1pass", "NewPassword12").is_ok());
    assert!(verify_admin_pass(&h, "NewPassword12"));
}

#[test]
fn rate_limit_whole_window_allowance() {
    let mut limits = RateLimits::new();
    let mut allowed = 0;
    for t in 0..=60u64 {
        if check_rate_limit_at(&mut limits, "ip", false, 500 + t) {
            allowed += 1;
        }
    }
    assert_eq!(allowed, 30);
}

#[test]
fn nonce_remembered_through_999_others() {
    let mut log = NonceLog { used: Vec::new() };
    let first = "first-nonce-000000";
    assert!(check_nonce(&mut log, first));
    for i in 0..999 {
        assert!(check_nonce(&mut log, &format!("other-{:010}", i)));
    }
    let before = log.used.clone();
    assert!(!check_nonce(&mut log, first));
    assert_eq!(log.used, before);
}

#[test]
fn login_lockout_near_clock_end() {
    let mut attempts = LoginAttempts::new();
    let now = u64::MAX - 100;
    for _ in 0..5 {
        finish_login(&mut attempts, "1.1.1.1", false, now);
    }
    assert_eq!(attempts.get("1.1.1.1").and_then(|a| a.locked_until), Some(u64::MAX));
    assert!(matches!(
        login_attempt(&mut attempts, "1.1.1.1", "whatever1", "unused", now + 50),
        LoginOutcome::Locked(50)
    ));
}

#[test]
fn rate_limit_window_with_other_addresses() {
    let mut limits = RateLimits::new();
    let mut allowed = 0;
    for t in 0..=60u64 {
        check_rate_limit_at(&mut limits, "other", false, 900 + t);
        if check_rate_limit_at(&mut limits, "ip", false, 900 + t) {
            allowed += 1;
        }
        check_rate_limit_at(&mut limits, "third", true, 900 + t);
    }
    assert_eq!(allowed, 30);
}
