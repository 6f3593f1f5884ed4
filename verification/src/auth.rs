//! Administrator authentication: password hashes, the login lock-out,
//! password changes and random secrets.
use vstd::prelude::*;
use crate::store::KeyedStore;
use crate::text::{
    ascii_digit, byte_len, byte_length, chars_of, is_ascii_alnum, is_ascii_digit, is_ascii_lower,
    is_ascii_upper, push_char, owned,
};

verus! {

// ───────────────────────── bcrypt ─────────────────────────

/// What `bcrypt::verify(password, hashed)` returns, `None` standing for its
/// error (a malformed hash).
pub uninterp spec fn bcrypt_outcome(password: Seq<char>, hashed: Seq<char>) -> Option<bool>;

/// Calls `bcrypt::verify`, which recomputes the hash of `password` with the
/// salt and cost written in `hashed` and compares; a function of its
/// arguments, named here.
#[verifier::external_body]
fn bcrypt_verify(password: &str, hashed: &str) -> (r: Option<bool>)
    ensures
        r == bcrypt_outcome(password@, hashed@),
{
    bcrypt::verify(password, hashed).ok()
}

/// Calls `bcrypt::hash` with the default cost. The salt is random, so the
/// hash is not determined; what the crate's source shows of every outcome is
/// that `bcrypt::verify` accepts the password against it.
#[verifier::external_body]
fn bcrypt_hash(password: &str) -> (r: Option<String>)
    ensures
        r matches Some(h) ==> bcrypt_outcome(password@, h@) == Some(true),
{
    bcrypt::hash(password, bcrypt::DEFAULT_COST).ok()
}

/// Whether `password` matches the stored hash (a malformed hash matches
/// nothing).
pub open spec fn password_matches(password: Seq<char>, hashed: Seq<char>) -> bool {
    bcrypt_outcome(password, hashed) == Some(true)
}

/// Checks the administrator password against the stored hash.
pub fn verify_admin_pass(hashed: &str, password: &str) -> (r: bool)
    ensures
        r == password_matches(password@, hashed@),
{
    match bcrypt_verify(password, hashed) {
        Some(b) => b,
        None => false,
    }
}

/// A hash of `password` for storing; empty if hashing failed.
pub fn hash_password(password: &str) -> (r: String)
    ensures
        r@.len() == 0 || password_matches(password@, r@),
{
    match bcrypt_hash(password) {
        Some(h) => h,
        None => String::new(),
    }
}

// ───────────────────────── random secrets ─────────────────────────

/// Calls `rand::thread_rng().gen_range(0..62)`: by its documentation a value
/// in that range; which one is chance.
#[verifier::external_body]
fn random_below_62() -> (r: u8)
    ensures
        r < 62,
{
    rand::Rng::gen_range(&mut rand::thread_rng(), 0..62)
}

/// The character that the number `c` (below 62) stands for: digits, then
/// lower-case, then upper-case letters.
pub open spec fn alnum_char(c: u8) -> char {
    if c < 10 {
        (48 + c) as char
    } else if c < 36 {
        (97 + c - 10) as char
    } else {
        (65 + c - 36) as char
    }
}

fn alnum_from(c: u8) -> (r: char)
    requires
        c < 62,
    ensures
        r == alnum_char(c),
        is_ascii_alnum(r),
{
    if c < 10 {
        (48 + c) as char
    } else if c < 36 {
        (97 + c - 10) as char
    } else {
        (65 + c - 36) as char
    }
}

/// A random string of `len` ASCII letters and digits.
pub fn random_alnum(len: usize) -> (r: String)
    ensures
        r@.len() == len,
        forall|i: int| 0 <= i < r@.len() ==> is_ascii_alnum(#[trigger] r@[i]),
{
    let mut s = String::new();
    let mut i: usize = 0;
    while i < len
        invariant
            i <= len,
            s@.len() == i,
            forall|k: int| 0 <= k < s@.len() ==> is_ascii_alnum(#[trigger] s@[k]),
        decreases len - i,
    {
        let c = alnum_from(random_below_62());
        push_char(&mut s, c);
        i += 1;
    }
    s
}

/// The first administrator password: the one given at install time when it
/// has at least 8 bytes, else a random one of 20 letters and digits.
pub fn initial_admin_password(given: Option<&str>) -> (r: String)
    ensures
        match given {
            Some(g) if byte_len(g@) >= 8 => r@ == g@,
            _ => r@.len() == 20 && forall|i: int| 0 <= i < r@.len() ==> is_ascii_alnum(#[trigger] r@[i]),
        },
{
    match given {
        Some(g) => {
            if byte_length(g) >= 8 {
                return owned(g);
            }
            random_alnum(20)
        },
        None => random_alnum(20),
    }
}

// ───────────────────────── login lock-out ─────────────────────────

/// Failed logins in a row before an address is locked out.
pub const LOGIN_MAX: u32 = 5;
/// How long a lock-out lasts, in seconds.
pub const LOGIN_LOCKOUT_SECS: u64 = 300;

/// The login record of one client address.
#[derive(Clone, Copy)]
pub struct LoginAttempt {
    pub failures: u32,
    pub since: u64,
    pub locked_until: Option<u64>,
}

pub type LoginAttempts = KeyedStore<LoginAttempt>;

/// The record of `ip`, or a fresh one.
pub open spec fn attempt_of(m: Map<Seq<char>, LoginAttempt>, ip: Seq<char>, now: u64) -> LoginAttempt {
    if m.contains_key(ip) {
        m[ip]
    } else {
        LoginAttempt { failures: 0, since: now, locked_until: None }
    }
}

/// What happens before a password is checked: the new table, and
/// `Some(seconds)` while the address is locked out for that many more
/// seconds. An expired lock is cleared.
pub open spec fn login_gate_spec(m: Map<Seq<char>, LoginAttempt>, ip: Seq<char>, now: u64) -> (
    Map<Seq<char>, LoginAttempt>,
    Option<u64>,
) {
    let e = attempt_of(m, ip, now);
    match e.locked_until {
        Some(l) => if now < l {
            (m.insert(ip, e), Some((l - now) as u64))
        } else {
            (m.insert(ip, LoginAttempt { failures: 0, since: now, locked_until: None }), None)
        },
        None => (m.insert(ip, e), None),
    }
}

/// When a lock-out starting at `now` ends: five minutes later, or at the end
/// of the clock's range if that comes first.
pub open spec fn lock_until(now: u64) -> u64 {
    if now <= u64::MAX - LOGIN_LOCKOUT_SECS {
        (now + LOGIN_LOCKOUT_SECS) as u64
    } else {
        u64::MAX
    }
}

/// The table after a failed password: one more failure, and a lock-out for
/// five minutes once the count reaches the limit.
pub open spec fn login_fail_spec(m: Map<Seq<char>, LoginAttempt>, ip: Seq<char>, now: u64) -> Map<
    Seq<char>,
    LoginAttempt,
> {
    let e = attempt_of(m, ip, now);
    let f = (e.failures + 1) as u32;
    m.insert(
        ip,
        LoginAttempt {
            failures: f,
            since: e.since,
            locked_until: if f >= LOGIN_MAX {
                Some(lock_until(now))
            } else {
                e.locked_until
            },
        },
    )
}

/// No failure count of an unlocked address is at its maximum.
pub open spec fn failures_countable(m: Map<Seq<char>, LoginAttempt>, ip: Seq<char>) -> bool {
    m.contains_key(ip) && m[ip].locked_until is None ==> m[ip].failures < u32::MAX
}

/// The failure count of `ip` can still go up by one.
pub open spec fn failures_below_max(m: Map<Seq<char>, LoginAttempt>, ip: Seq<char>) -> bool {
    m.contains_key(ip) ==> m[ip].failures < u32::MAX
}

/// Checks whether `ip` may try a password at `now`; `Some(seconds)` while it
/// is locked out.
pub fn login_gate(attempts: &mut LoginAttempts, ip: &str, now: u64) -> (r: Option<u64>)
    ensures
        (final(attempts).view(), r) == login_gate_spec(old(attempts).view(), ip@, now),
{
    let e = match attempts.get(ip) {
        Some(e) => e,
        None => LoginAttempt { failures: 0, since: now, locked_until: None },
    };
    match e.locked_until {
        Some(l) => {
            if now < l {
                attempts.set(ip, e);
                Some(l - now)
            } else {
                attempts.set(ip, LoginAttempt { failures: 0, since: now, locked_until: None });
                None
            }
        },
        None => {
            attempts.set(ip, e);
            None
        },
    }
}

/// Records a failed password from `ip` at `now`; returns the failure count.
pub fn record_login_failure(attempts: &mut LoginAttempts, ip: &str, now: u64) -> (r: u32)
    requires
        failures_below_max(old(attempts).view(), ip@),
    ensures
        final(attempts).view() == login_fail_spec(old(attempts).view(), ip@, now),
        r == login_fail_spec(old(attempts).view(), ip@, now)[ip@].failures,
{
    let e = match attempts.get(ip) {
        Some(e) => e,
        None => LoginAttempt { failures: 0, since: now, locked_until: None },
    };
    let f = e.failures + 1;
    let until = if now <= u64::MAX - LOGIN_LOCKOUT_SECS { now + LOGIN_LOCKOUT_SECS } else { u64::MAX };
    let locked = if f >= LOGIN_MAX { Some(until) } else { e.locked_until };
    attempts.set(ip, LoginAttempt { failures: f, since: e.since, locked_until: locked });
    f
}

/// How a login attempt ended.
#[derive(Debug)]
pub enum LoginOutcome {
    /// Locked out; try again after this many seconds.
    Locked(u64),
    /// The password is empty or longer than 256 bytes.
    Malformed,
    /// The password is right; the address's record is cleared.
    Accepted,
    /// The password is wrong: the failure count, and whether the address is
    /// now locked out.
    Rejected { failures: u32, locked: bool },
}

/// A password of acceptable length: not empty, at most 256 bytes.
pub open spec fn password_shape_ok(p: Seq<char>) -> bool {
    p.len() > 0 && byte_len(p) <= 256
}

/// The whole login decision for `password` from `ip` at `now`, against the
/// stored hash; `ok` is whether the password matches.
pub open spec fn login_spec(
    m: Map<Seq<char>, LoginAttempt>,
    ip: Seq<char>,
    password: Seq<char>,
    ok: bool,
    now: u64,
) -> (Map<Seq<char>, LoginAttempt>, LoginOutcome) {
    let (g, blocked) = login_gate_spec(m, ip, now);
    match blocked {
        Some(s) => (g, LoginOutcome::Locked(s)),
        None => if !password_shape_ok(password) {
            (g, LoginOutcome::Malformed)
        } else if ok {
            (g.remove(ip), LoginOutcome::Accepted)
        } else {
            let f = login_fail_spec(g, ip, now);
            (
                f,
                LoginOutcome::Rejected {
                    failures: f[ip].failures,
                    locked: f[ip].failures >= LOGIN_MAX,
                },
            )
        },
    }
}

/// Finishes a login once the password has been checked.
pub fn finish_login(attempts: &mut LoginAttempts, ip: &str, ok: bool, now: u64) -> (r: LoginOutcome)
    requires
        failures_below_max(old(attempts).view(), ip@),
    ensures
        ok ==> r == LoginOutcome::Accepted && final(attempts).view() == old(attempts).view().remove(ip@),
        !ok ==> final(attempts).view() == login_fail_spec(old(attempts).view(), ip@, now) && r
            == (LoginOutcome::Rejected {
            failures: final(attempts).view()[ip@].failures,
            locked: final(attempts).view()[ip@].failures >= LOGIN_MAX,
        }),
{
    if ok {
        attempts.remove(ip);
        LoginOutcome::Accepted
    } else {
        let f = record_login_failure(attempts, ip, now);
        LoginOutcome::Rejected { failures: f, locked: f >= LOGIN_MAX }
    }
}

/// A login attempt with `password` from `ip` at `now`.
pub fn login_attempt(
    attempts: &mut LoginAttempts,
    ip: &str,
    password: &str,
    admin_hash: &str,
    now: u64,
) -> (r: LoginOutcome)
    requires
        failures_countable(old(attempts).view(), ip@),
    ensures
        (final(attempts).view(), r) == login_spec(
            old(attempts).view(),
            ip@,
            password@,
            password_matches(password@, admin_hash@),
            now,
        ),
{
    match login_gate(attempts, ip, now) {
        Some(s) => LoginOutcome::Locked(s),
        None => {
            if password.is_empty() || byte_length(password) > 256 {
                return LoginOutcome::Malformed;
            }
            let ok = verify_admin_pass(admin_hash, password);
            finish_login(attempts, ip, ok, now)
        },
    }
}

/// After the limit of failures in a row, the address is locked out: every
/// attempt during the next five minutes is refused before its password is
/// looked at.
pub proof fn login_lockout_after_failures(
    m: Map<Seq<char>, LoginAttempt>,
    ip: Seq<char>,
    now: u64,
    later: u64,
)
    requires
        attempt_of(m, ip, now).failures == LOGIN_MAX - 1,
        now <= later < lock_until(now),
    ensures
        login_gate_spec(login_fail_spec(m, ip, now), ip, later).1 == Some(
            (lock_until(now) - later) as u64,
        ),
{
}

/// The table after `n` wrong passwords from `ip`, all at `now`.
pub open spec fn after_wrong_passwords(
    m: Map<Seq<char>, LoginAttempt>,
    ip: Seq<char>,
    password: Seq<char>,
    now: u64,
    n: nat,
) -> Map<Seq<char>, LoginAttempt>
    decreases n,
{
    if n == 0 {
        m
    } else {
        login_spec(after_wrong_passwords(m, ip, password, now, (n - 1) as nat), ip, password, false, now).0
    }
}

proof fn lemma_wrong_passwords_count(
    m: Map<Seq<char>, LoginAttempt>,
    ip: Seq<char>,
    password: Seq<char>,
    now: u64,
    n: nat,
)
    requires
        !m.contains_key(ip),
        password_shape_ok(password),
        1 <= n <= LOGIN_MAX,
    ensures
        after_wrong_passwords(m, ip, password, now, n).contains_key(ip),
        after_wrong_passwords(m, ip, password, now, n)[ip].failures == n,
        n < LOGIN_MAX ==> after_wrong_passwords(m, ip, password, now, n)[ip].locked_until is None,
        n == LOGIN_MAX ==> after_wrong_passwords(m, ip, password, now, n)[ip].locked_until == Some(
            lock_until(now),
        ),
    decreases n,
{
    let prev = after_wrong_passwords(m, ip, password, now, (n - 1) as nat);
    if n > 1 {
        lemma_wrong_passwords_count(m, ip, password, now, (n - 1) as nat);
    } else {
        assert(prev == m);
    }
    let e = attempt_of(prev, ip, now);
    assert(e.locked_until is None);
    assert(e.failures == n - 1);
    let g = login_gate_spec(prev, ip, now);
    assert(g.1 is None);
    assert(g.0 == prev.insert(ip, e));
    assert(attempt_of(g.0, ip, now) == e);
    assert(after_wrong_passwords(m, ip, password, now, n) == login_fail_spec(g.0, ip, now));
}

/// From an address with no record, five wrong passwords in a row lock it
/// out: for the next five minutes every attempt is refused, whatever the
/// password.
pub proof fn login_five_failures_lock_out(
    m: Map<Seq<char>, LoginAttempt>,
    ip: Seq<char>,
    wrong: Seq<char>,
    password: Seq<char>,
    ok: bool,
    now: u64,
    later: u64,
)
    requires
        !m.contains_key(ip),
        password_shape_ok(wrong),
        now <= later < lock_until(now),
    ensures
        login_spec(after_wrong_passwords(m, ip, wrong, now, 5), ip, password, ok, later).1
            == LoginOutcome::Locked((lock_until(now) - later) as u64),
{
    lemma_wrong_passwords_count(m, ip, wrong, now, 5);
}

/// A lock-out that has run out starts the address afresh: the attempt goes
/// on to the password, and a wrong password then counts as the first failure,
/// with no lock.
pub proof fn login_expired_lock_restarts(
    m: Map<Seq<char>, LoginAttempt>,
    ip: Seq<char>,
    password: Seq<char>,
    now: u64,
)
    requires
        m.contains_key(ip),
        m[ip].locked_until matches Some(l) && l <= now,
        password_shape_ok(password),
    ensures
        login_gate_spec(m, ip, now).1 is None,
        login_gate_spec(m, ip, now).0[ip].failures == 0,
        login_gate_spec(m, ip, now).0[ip].locked_until is None,
        login_spec(m, ip, password, false, now).1 == (LoginOutcome::Rejected { failures: 1, locked: false }),
{
}

/// A refused attempt while locked out changes nothing.
pub proof fn login_lockout_keeps_state(m: Map<Seq<char>, LoginAttempt>, ip: Seq<char>, now: u64)
    requires
        login_gate_spec(m, ip, now).1 is Some,
    ensures
        login_gate_spec(m, ip, now).0 == m,
{
    assert(m.insert(ip, m[ip]) =~= m);
}

/// A right password clears the address's record.
pub proof fn login_success_clears(
    m: Map<Seq<char>, LoginAttempt>,
    ip: Seq<char>,
    password: Seq<char>,
    now: u64,
)
    requires
        login_gate_spec(m, ip, now).1 is None,
        password_shape_ok(password),
    ensures
        !login_spec(m, ip, password, true, now).0.contains_key(ip),
        login_spec(m, ip, password, true, now).1 == LoginOutcome::Accepted,
{
}

// ───────────────────────── password change ─────────────────────────

/// Why a password change was refused.
#[derive(Debug)]
pub enum ChangePassError {
    /// The new password has fewer than 10 bytes.
    TooShort,
    /// The new password lacks an upper-case letter, a lower-case letter or a digit.
    TooSimple,
    /// The current password is wrong.
    WrongCurrent,
    /// Hashing the new password failed.
    HashFailed,
}

/// The password policy: at least 10 bytes, with an ASCII upper-case letter, a
/// lower-case letter and a digit.
pub open spec fn strong_password(p: Seq<char>) -> bool {
    &&& byte_len(p) >= 10
    &&& exists|i: int| 0 <= i < p.len() && is_ascii_upper(#[trigger] p[i])
    &&& exists|i: int| 0 <= i < p.len() && is_ascii_lower(#[trigger] p[i])
    &&& exists|i: int| 0 <= i < p.len() && is_ascii_digit(#[trigger] p[i])
}

fn has_class(v: &Vec<char>, which: u8) -> (r: bool)
    requires
        which < 3,
    ensures
        which == 0 ==> r == exists|i: int| 0 <= i < v@.len() && is_ascii_upper(#[trigger] v@[i]),
        which == 1 ==> r == exists|i: int| 0 <= i < v@.len() && is_ascii_lower(#[trigger] v@[i]),
        which == 2 ==> r == exists|i: int| 0 <= i < v@.len() && is_ascii_digit(#[trigger] v@[i]),
{
    let mut i: usize = 0;
    while i < v.len()
        invariant
            i <= v.len(),
            which < 3,
            which == 0 ==> forall|k: int| 0 <= k < i ==> !is_ascii_upper(#[trigger] v@[k]),
            which == 1 ==> forall|k: int| 0 <= k < i ==> !is_ascii_lower(#[trigger] v@[k]),
            which == 2 ==> forall|k: int| 0 <= k < i ==> !is_ascii_digit(#[trigger] v@[k]),
        decreases v.len() - i,
    {
        let c = v[i];
        let hit = if which == 0 {
            'A' <= c && c <= 'Z'
        } else if which == 1 {
            'a' <= c && c <= 'z'
        } else {
            ascii_digit(c)
        };
        if hit {
            return true;
        }
        i += 1;
    }
    false
}

/// Whether `p` meets the password policy.
pub fn strong_enough(p: &str) -> (r: bool)
    ensures
        r == strong_password(p@),
{
    if byte_length(p) < 10 {
        return false;
    }
    let v = chars_of(p);
    has_class(&v, 0) && has_class(&v, 1) && has_class(&v, 2)
}

/// Changes the administrator password held as `admin_hash`: the new password
/// must meet the policy and the current one must match.
pub fn change_admin_password(admin_hash: &mut String, current: &str, new_password: &str) -> (r:
    Result<(), ChangePassError>)
    ensures
        byte_len(new_password@) < 10 ==> r == Err::<(), ChangePassError>(ChangePassError::TooShort),
        byte_len(new_password@) >= 10 && !strong_password(new_password@) ==> r == Err::<
            (),
            ChangePassError,
        >(ChangePassError::TooSimple),
        strong_password(new_password@) && !password_matches(current@, old(admin_hash)@) ==> r
            == Err::<(), ChangePassError>(ChangePassError::WrongCurrent),
        strong_password(new_password@) && password_matches(current@, old(admin_hash)@) ==> (r
            is Ok || r == Err::<(), ChangePassError>(ChangePassError::HashFailed)),
        r is Ok ==> password_matches(new_password@, final(admin_hash)@),
        r is Err ==> final(admin_hash)@ == old(admin_hash)@,
{
    if byte_length(new_password) < 10 {
        return Err(ChangePassError::TooShort);
    }
    if !strong_enough(new_password) {
        return Err(ChangePassError::TooSimple);
    }
    if !verify_admin_pass(admin_hash.as_str(), current) {
        return Err(ChangePassError::WrongCurrent);
    }
    match bcrypt_hash(new_password) {
        Some(h) => {
            *admin_hash = h;
            Ok(())
        },
        None => Err(ChangePassError::HashFailed),
    }
}

} // verus!
