//! Request guards: per-address rate limiting, CSRF tokens and one-time nonces.
use vstd::prelude::*;
use crate::store::KeyedStore;
use crate::text::{ascii_alnum, byte_len, byte_length, chars_of, is_ascii_alnum, str_eq};

verus! {

// ───────────────────────── time ─────────────────────────

/// Seconds since the Unix epoch, from `SystemTime::now()` (0 if the clock is
/// before the epoch). It reads the clock, so nothing is promised of it.
#[verifier::external_body]
pub fn now_secs() -> (t: u64)
{
    std::time::SystemTime::now().duration_since(std::time::UNIX_EPOCH).unwrap_or_default().as_secs()
}

// ───────────────────────── rate limiting ─────────────────────────

/// Length of a rate-limit window, in seconds.
pub const RATE_LIMIT_WINDOW: u64 = 60;
/// Requests allowed per window to an unauthenticated endpoint.
pub const RATE_LIMIT_MAX: u32 = 30;
/// Requests allowed per window to an authenticated endpoint.
pub const RATE_LIMIT_AUTH_MAX: u32 = 120;

/// The current window of one client address.
#[derive(Clone, Copy)]
pub struct RateLimitEntry {
    pub window_start: u64,
    pub count: u32,
}

pub type RateLimits = KeyedStore<RateLimitEntry>;

pub open spec fn rate_max(is_auth: bool) -> u32 {
    if is_auth {
        RATE_LIMIT_AUTH_MAX
    } else {
        RATE_LIMIT_MAX
    }
}

/// No window starts after `now` (the clock has not gone back).
pub open spec fn windows_started(m: Map<Seq<char>, RateLimitEntry>, now: u64) -> bool {
    forall|k: Seq<char>| #[trigger] m.contains_key(k) ==> m[k].window_start <= now
}

/// The windows that are still recent at `now` (at most two windows old).
pub open spec fn recent_windows(m: Map<Seq<char>, RateLimitEntry>, now: u64) -> Map<
    Seq<char>,
    RateLimitEntry,
> {
    Map::new(
        |k: Seq<char>| m.contains_key(k) && now - m[k].window_start <= 2 * RATE_LIMIT_WINDOW,
        |k: Seq<char>| m[k],
    )
}

/// The window of `ip` before the request: its own, or a fresh empty one.
pub open spec fn window_of(m: Map<Seq<char>, RateLimitEntry>, ip: Seq<char>, now: u64) -> RateLimitEntry {
    if m.contains_key(ip) {
        m[ip]
    } else {
        RateLimitEntry { window_start: now, count: 0 }
    }
}

/// One request from `ip` at `now`: the new table and whether it is allowed.
/// An expired window restarts with this request; a full window refuses it;
/// otherwise the request is counted, and once more than 1000 addresses are
/// tracked the stale windows are dropped.
pub open spec fn rate_step(
    m: Map<Seq<char>, RateLimitEntry>,
    ip: Seq<char>,
    is_auth: bool,
    now: u64,
) -> (Map<Seq<char>, RateLimitEntry>, bool) {
    let e = window_of(m, ip, now);
    if now - e.window_start > RATE_LIMIT_WINDOW {
        (m.insert(ip, RateLimitEntry { window_start: now, count: 1 }), true)
    } else if e.count >= rate_max(is_auth) {
        (m.insert(ip, e), false)
    } else {
        let m1 = m.insert(ip, RateLimitEntry { window_start: e.window_start, count: (e.count + 1) as u32 });
        if m1.len() > 1000 {
            (recent_windows(m1, now), true)
        } else {
            (m1, true)
        }
    }
}

/// Counts a request from `ip` at time `now` and says whether it may go on.
pub fn check_rate_limit_at(limits: &mut RateLimits, ip: &str, is_auth: bool, now: u64) -> (r: bool)
    requires
        windows_started(old(limits).view(), now),
    ensures
        (final(limits).view(), r) == rate_step(old(limits).view(), ip@, is_auth, now),
{
    let max = if is_auth { RATE_LIMIT_AUTH_MAX } else { RATE_LIMIT_MAX };
    let e = match limits.get(ip) {
        Some(e) => e,
        None => RateLimitEntry { window_start: now, count: 0 },
    };
    if now - e.window_start > RATE_LIMIT_WINDOW {
        limits.set(ip, RateLimitEntry { window_start: now, count: 1 });
        true
    } else if e.count >= max {
        limits.set(ip, e);
        false
    } else {
        limits.set(ip, RateLimitEntry { window_start: e.window_start, count: e.count + 1 });
        proof {
            limits.lemma_finite();
        }
        if limits.len() > 1000 {
            let ghost m1 = limits.view();
            assert(windows_started(m1, now));
            let keep = |v: &RateLimitEntry| -> (b: bool)
                ensures
                    b <==> v.window_start > now || now - v.window_start <= 2 * RATE_LIMIT_WINDOW,
                { v.window_start > now || now - v.window_start <= 2 * RATE_LIMIT_WINDOW };
            limits.retain(
                keep,
                Ghost(
                    |v: RateLimitEntry|
                        v.window_start > now || now - v.window_start <= 2 * RATE_LIMIT_WINDOW,
                ),
            );
            assert(limits.view() =~= recent_windows(m1, now));
        }
        true
    }
}

/// Counts a request from `ip` now. `None` exactly when the clock reads earlier
/// than a window already recorded (then nothing is counted); otherwise the
/// request is counted as `rate_step` says at the time read.
pub fn check_rate_limit(limits: &mut RateLimits, ip: &str, is_auth: bool) -> (r: Option<bool>)
    ensures
        exists|now: u64|
            {
                &&& (r is None <==> !windows_started(old(limits).view(), now))
                &&& r is None ==> final(limits).view() == old(limits).view()
                &&& r matches Some(ok) ==> (final(limits).view(), ok) == rate_step(
                    old(limits).view(),
                    ip@,
                    is_auth,
                    now,
                )
            },
{
    let now = now_secs();
    let begun = |v: &RateLimitEntry| -> (b: bool)
        ensures
            b <==> v.window_start <= now,
        { v.window_start <= now };
    let started = limits.all(
        begun,
        Ghost(|v: RateLimitEntry| v.window_start <= now),
    );
    if !started {
        assert(!windows_started(limits.view(), now));
        return None;
    }
    Some(check_rate_limit_at(limits, ip, is_auth, now))
}

/// A refused request changes nothing.
pub proof fn rate_limit_refusal_changes_nothing(
    m: Map<Seq<char>, RateLimitEntry>,
    ip: Seq<char>,
    is_auth: bool,
    now: u64,
)
    requires
        windows_started(m, now),
        !rate_step(m, ip, is_auth, now).1,
    ensures
        rate_step(m, ip, is_auth, now).0 == m,
{
    assert(m.contains_key(ip));
    assert(m.insert(ip, m[ip]) =~= m);
}

/// Within a window, once the allowance is used up every request is refused.
pub proof fn rate_limit_full_window_refuses(
    m: Map<Seq<char>, RateLimitEntry>,
    ip: Seq<char>,
    is_auth: bool,
    now: u64,
)
    requires
        windows_started(m, now),
        m.contains_key(ip),
        now - m[ip].window_start <= RATE_LIMIT_WINDOW,
        m[ip].count >= rate_max(is_auth),
    ensures
        !rate_step(m, ip, is_auth, now).1,
{
}

/// The count of a window never goes past the allowance.
pub proof fn rate_limit_count_bounded(
    m: Map<Seq<char>, RateLimitEntry>,
    ip: Seq<char>,
    is_auth: bool,
    now: u64,
)
    requires
        windows_started(m, now),
        m.contains_key(ip) ==> m[ip].count <= rate_max(is_auth),
    ensures
        rate_step(m, ip, is_auth, now).0.contains_key(ip) ==> rate_step(
            m,
            ip,
            is_auth,
            now,
        ).0[ip].count <= rate_max(is_auth),
{
}

/// A run of requests, one after another, each from an address, to an
/// authenticated endpoint or not, at a time: the table after them and how
/// many of those from `ip` were allowed.
pub open spec fn rate_run(
    m: Map<Seq<char>, RateLimitEntry>,
    reqs: Seq<(Seq<char>, bool, u64)>,
    ip: Seq<char>,
) -> (Map<Seq<char>, RateLimitEntry>, nat)
    decreases reqs.len(),
{
    if reqs.len() == 0 {
        (m, 0)
    } else {
        let (a, auth, t) = reqs[0];
        let (m1, ok) = rate_step(m, a, auth, t);
        let (m2, k) = rate_run(m1, reqs.drop_first(), ip);
        (m2, k + if ok && a == ip {
            1nat
        } else {
            0nat
        })
    }
}

/// Within one window the allowance holds over any run of requests, from
/// `ip` and from other addresses in between: when the window of `ip` started
/// at `w` and has counted `count` requests, the requests from `ip` made
/// before `w + 60` are allowed at most `allowance - count` more times. (After
/// a request at `w` that opened the window, with a count of 1, at most the
/// allowance is allowed in the whole window.)
pub proof fn rate_limit_window_allowance(
    m: Map<Seq<char>, RateLimitEntry>,
    ip: Seq<char>,
    is_auth: bool,
    w: u64,
    reqs: Seq<(Seq<char>, bool, u64)>,
)
    requires
        m.contains_key(ip),
        m[ip].window_start == w,
        m[ip].count <= rate_max(is_auth),
        forall|i: int|
            0 <= i < reqs.len() ==> w <= (#[trigger] reqs[i]).2 <= w + RATE_LIMIT_WINDOW && (reqs[i].0
                == ip ==> reqs[i].1 == is_auth),
    ensures
        rate_run(m, reqs, ip).1 + m[ip].count <= rate_max(is_auth),
    decreases reqs.len(),
{
    if reqs.len() > 0 {
        let (a, auth, t) = reqs[0];
        assert(w <= t <= w + RATE_LIMIT_WINDOW);
        let (m1, ok) = rate_step(m, a, auth, t);
        let rest = reqs.drop_first();
        assert forall|i: int| 0 <= i < rest.len() implies w <= (#[trigger] rest[i]).2 <= w
            + RATE_LIMIT_WINDOW && (rest[i].0 == ip ==> rest[i].1 == is_auth) by {
            assert(rest[i] == reqs[i + 1]);
        }
        if a == ip {
            assert(auth == is_auth);
            if ok {
                let m0 = m.insert(
                    ip,
                    RateLimitEntry { window_start: w, count: (m[ip].count + 1) as u32 },
                );
                assert(m0.contains_key(ip));
                if m0.len() > 1000 {
                    assert(recent_windows(m0, t).contains_key(ip));
                }
                assert(m1.contains_key(ip) && m1[ip].window_start == w && m1[ip].count
                    == m[ip].count + 1);
            } else {
                assert(m1.contains_key(ip) && m1[ip] == m[ip]);
            }
        } else {
            let e = window_of(m, a, t);
            if t - e.window_start > RATE_LIMIT_WINDOW {
            } else if e.count >= rate_max(auth) {
            } else {
                let m0 = m.insert(
                    a,
                    RateLimitEntry { window_start: e.window_start, count: (e.count + 1) as u32 },
                );
                assert(m0.contains_key(ip) && m0[ip] == m[ip]);
                if m0.len() > 1000 {
                    assert(recent_windows(m0, t).contains_key(ip));
                }
            }
            assert(m1.contains_key(ip) && m1[ip] == m[ip]);
        }
        rate_limit_window_allowance(m1, ip, is_auth, w, rest);
    }
}

// ───────────────────────── CSRF tokens ─────────────────────────

/// How long a CSRF token stays valid, in seconds.
pub const CSRF_TTL_SECS: u64 = 3600;

/// Token → expiry time.
pub type CsrfTokens = KeyedStore<u64>;

/// When a token issued at `now` expires: an hour later, or at the end of
/// the clock's range if that comes first.
pub open spec fn csrf_expiry(now: u64) -> u64 {
    if now <= u64::MAX - CSRF_TTL_SECS {
        (now + CSRF_TTL_SECS) as u64
    } else {
        u64::MAX
    }
}

/// The tokens after issuing `token` at `now`: it expires an hour later, and
/// every token already expired is dropped.
pub open spec fn csrf_after_issue(m: Map<Seq<char>, u64>, token: Seq<char>, now: u64) -> Map<
    Seq<char>,
    u64,
> {
    let m1 = m.insert(token, csrf_expiry(now));
    Map::new(|k: Seq<char>| m1.contains_key(k) && m1[k] > now, |k: Seq<char>| m1[k])
}

/// Whether `token` is accepted at `now`: not empty, issued, not expired.
pub open spec fn csrf_valid(m: Map<Seq<char>, u64>, token: Seq<char>, now: u64) -> bool {
    token.len() > 0 && m.contains_key(token) && m[token] > now
}

/// Records `token` as issued at `now`.
pub fn issue_csrf_token(tokens: &mut CsrfTokens, token: &str, now: u64)
    ensures
        final(tokens).view() == csrf_after_issue(old(tokens).view(), token@, now),
{
    let expires = if now <= u64::MAX - CSRF_TTL_SECS {
        now + CSRF_TTL_SECS
    } else {
        u64::MAX
    };
    tokens.set(token, expires);
    let live = |t: &u64| -> (b: bool)
        ensures
            b <==> *t > now,
        { *t > now };
    tokens.retain(
        live,
        Ghost(|t: u64| t > now),
    );
}

/// Whether `token` is accepted at `now`.
pub fn verify_csrf_at(tokens: &CsrfTokens, token: &str, now: u64) -> (r: bool)
    ensures
        r == csrf_valid(tokens.view(), token@, now),
{
    if token.is_empty() {
        return false;
    }
    match tokens.get(token) {
        Some(t) => t > now,
        None => false,
    }
}

/// A new random token, from `Uuid::new_v4().to_string()`: its hyphenated
/// form is 36 characters long; the rest is chance.
#[verifier::external_body]
fn new_uuid() -> (r: String)
    ensures
        r@.len() == 36,
{
    uuid::Uuid::new_v4().to_string()
}

/// Issues a fresh random token now and returns it; it is recorded with its
/// expiry and is accepted from now on (unless the clock is at its very end).
pub fn generate_csrf_token(tokens: &mut CsrfTokens) -> (r: String)
    ensures
        r@.len() == 36,
        exists|now: u64|
            {
                &&& final(tokens).view() == csrf_after_issue(old(tokens).view(), r@, now)
                &&& forall|t: u64|
                    now <= t < csrf_expiry(now) ==> #[trigger] csrf_valid(final(tokens).view(), r@, t)
            },
{
    let token = new_uuid();
    let now = now_secs();
    issue_csrf_token(tokens, token.as_str(), now);
    assert forall|t: u64| now <= t < csrf_expiry(now) implies #[trigger] csrf_valid(
        tokens.view(),
        token@,
        t,
    ) by {
        csrf_token_valid_until_expiry(old(tokens).view(), token@, now, t);
    }
    token
}

/// Whether `token` is accepted now.
pub fn verify_csrf(tokens: &CsrfTokens, token: &str) -> (r: bool)
    ensures
        r ==> exists|now: u64| csrf_valid(tokens.view(), token@, now),
        token@.len() == 0 || !tokens.view().contains_key(token@) ==> !r,
{
    let now = now_secs();
    verify_csrf_at(tokens, token, now)
}

/// A token issued at `now` is accepted at any time before it expires.
pub proof fn csrf_token_valid_until_expiry(m: Map<Seq<char>, u64>, token: Seq<char>, now: u64, t: u64)
    requires
        token.len() > 0,
        now <= t < csrf_expiry(now),
    ensures
        csrf_valid(csrf_after_issue(m, token, now), token, t),
{
}

/// Issuing a token never revokes another one that is still valid: every
/// other token whose expiry is later than the issue time keeps that expiry.
pub proof fn csrf_issue_keeps_live_tokens(m: Map<Seq<char>, u64>, token: Seq<char>, now: u64, k: Seq<char>)
    requires
        k != token,
        m.contains_key(k),
        m[k] > now,
    ensures
        csrf_after_issue(m, token, now).contains_key(k),
        csrf_after_issue(m, token, now)[k] == m[k],
        forall|t: u64| now <= t < m[k] ==> csrf_valid(m, k, t) ==> #[trigger] csrf_valid(
            csrf_after_issue(m, token, now),
            k,
            t,
        ),
{
}

/// An expired token is refused.
pub proof fn csrf_expired_token_refused(m: Map<Seq<char>, u64>, token: Seq<char>, now: u64)
    requires
        m.contains_key(token),
        m[token] <= now,
    ensures
        !csrf_valid(m, token, now),
{
}

// ───────────────────────── nonces ─────────────────────────

/// How many used nonces are remembered.
pub const NONCE_MEMORY: usize = 1000;

pub open spec fn nonce_char(c: char) -> bool {
    is_ascii_alnum(c) || c == '-' || c == '_'
}

/// A well-formed nonce: 16..=128 bytes of letters, digits, `-` and `_`.
pub open spec fn nonce_shape_ok(n: Seq<char>) -> bool {
    &&& 16 <= byte_len(n) <= 128
    &&& forall|i: int| 0 <= i < n.len() ==> nonce_char(#[trigger] n[i])
}

/// Presenting nonce `n` to the log: whether it is accepted, and the log after.
/// A fresh well-formed nonce is appended; the oldest are forgotten so that at
/// most 1000 are kept.
pub open spec fn nonce_step(log: Seq<Seq<char>>, n: Seq<char>) -> (Seq<Seq<char>>, bool) {
    if !nonce_shape_ok(n) || log.contains(n) {
        (log, false)
    } else {
        let l = log.push(n);
        if l.len() > NONCE_MEMORY {
            (l.skip(l.len() - NONCE_MEMORY), true)
        } else {
            (l, true)
        }
    }
}

/// Presenting the nonces `ns` one after another: the log after them and how
/// many were accepted.
pub open spec fn nonce_run(log: Seq<Seq<char>>, ns: Seq<Seq<char>>) -> (Seq<Seq<char>>, nat)
    decreases ns.len(),
{
    if ns.len() == 0 {
        (log, 0)
    } else {
        let (l1, ok) = nonce_step(log, ns[0]);
        let (l2, k) = nonce_run(l1, ns.drop_first());
        (l2, k + if ok {
            1nat
        } else {
            0nat
        })
    }
}

/// A nonce at index `i` of a log of at most 1000 is still in the log after
/// a run that accepts no more nonces than there is room for before it.
proof fn lemma_nonce_kept(log: Seq<Seq<char>>, ns: Seq<Seq<char>>, n: Seq<char>, i: int)
    requires
        0 <= i < log.len() <= NONCE_MEMORY,
        log[i] == n,
        log.len() - 1 - i + nonce_run(log, ns).1 < NONCE_MEMORY,
    ensures
        nonce_run(log, ns).0.contains(n),
    decreases ns.len(),
{
    if ns.len() == 0 {
        assert(log[i] == n);
    } else {
        let (l1, ok) = nonce_step(log, ns[0]);
        let rest = ns.drop_first();
        if !ok {
            lemma_nonce_kept(l1, rest, n, i);
        } else {
            let l = log.push(ns[0]);
            if l.len() > NONCE_MEMORY {
                let d = l.len() - NONCE_MEMORY;
                assert(l1 == l.skip(d));
                assert(l1[i - d] == l[i]);
                lemma_nonce_kept(l1, rest, n, i - d);
            } else {
                assert(l1[i] == l[i]);
                lemma_nonce_kept(l1, rest, n, i);
            }
        }
    }
}

/// A nonce once accepted is refused, and changes nothing, for as long as
/// fewer than 1000 other nonces have been accepted since.
pub proof fn nonce_remembered(log: Seq<Seq<char>>, n: Seq<char>, ns: Seq<Seq<char>>)
    requires
        nonce_step(log, n).1,
        nonce_run(nonce_step(log, n).0, ns).1 < NONCE_MEMORY,
    ensures
        nonce_step(nonce_run(nonce_step(log, n).0, ns).0, n) == (
            nonce_run(nonce_step(log, n).0, ns).0,
            false,
        ),
{
    let l1 = nonce_step(log, n).0;
    let l = log.push(n);
    if l.len() > NONCE_MEMORY {
        let d = l.len() - NONCE_MEMORY;
        assert(l1[l1.len() - 1] == l[l.len() - 1]);
    } else {
        assert(l1[l1.len() - 1] == n);
    }
    lemma_nonce_kept(l1, ns, n, l1.len() - 1);
}

/// The nonces already used, oldest first.
pub struct NonceLog {
    pub used: Vec<String>,
}

impl NonceLog {
    pub open spec fn view(&self) -> Seq<Seq<char>> {
        self.used@.map_values(|s: String| s@)
    }
}

fn nonce_shape(n: &str) -> (r: bool)
    ensures
        r == nonce_shape_ok(n@),
{
    let len = byte_length(n);
    if len < 16 || len > 128 {
        return false;
    }
    let v = chars_of(n);
    let mut i: usize = 0;
    while i < v.len()
        invariant
            i <= v.len(),
            v@ == n@,
            forall|k: int| 0 <= k < i ==> nonce_char(#[trigger] v@[k]),
        decreases v.len() - i,
    {
        let c = v[i];
        if !ascii_alnum(c) && c != '-' && c != '_' {
            assert(!nonce_char(n@[i as int]));
            return false;
        }
        i += 1;
    }
    true
}

/// Accepts a nonce once: a replayed or malformed nonce is refused.
pub fn check_nonce(log: &mut NonceLog, nonce: &str) -> (r: bool)
    ensures
        (final(log)@, r) == nonce_step(old(log)@, nonce@),
{
    if !nonce_shape(nonce) {
        return false;
    }
    let mut i: usize = 0;
    while i < log.used.len()
        invariant
            i <= log.used.len(),
            log@ == old(log)@,
            forall|k: int| 0 <= k < i ==> #[trigger] log@[k] != nonce@,
        decreases log.used.len() - i,
    {
        if str_eq(log.used[i].as_str(), nonce) {
            assert(log@[i as int] == nonce@);
            return false;
        }
        i += 1;
    }
    let ghost l = old(log)@.push(nonce@);
    log.used.push(crate::text::owned(nonce));
    assert(log@ =~= l);
    if log.used.len() > NONCE_MEMORY {
        let drop = log.used.len() - NONCE_MEMORY;
        let mut kept: Vec<String> = Vec::new();
        let mut j: usize = drop;
        while j < log.used.len()
            invariant
                drop <= j <= log.used.len(),
                log@ == l,
                kept@.map_values(|s: String| s@) == l.subrange(drop as int, j as int),
            decreases log.used.len() - j,
        {
            let ghost before = kept@;
            assert(before.map_values(|s: String| s@).len() == before.len());
            let item = log.used[j].clone();
            kept.push(item);
            assert(kept@ == before.push(item));
            assert(log@[j as int] == item@);
            assert forall|k: int| 0 <= k < j + 1 - drop implies #[trigger] kept@[k]@ == l.subrange(
                drop as int,
                j + 1,
            )[k] by {
                if k < j - drop {
                    assert(kept@[k] == before[k]);
                    assert(before.map_values(|s: String| s@)[k] == l.subrange(drop as int, j as int)[k]);
                }
            }
            assert(kept@.map_values(|s: String| s@) =~= l.subrange(drop as int, j + 1));
            j += 1;
        }
        log.used = kept;
        assert(log@ =~= l.skip(l.len() - NONCE_MEMORY));
    }
    true
}

/// A nonce that was just accepted is refused when presented again.
pub proof fn nonce_replay_refused(log: Seq<Seq<char>>, n: Seq<char>)
    requires
        nonce_step(log, n).1,
    ensures
        nonce_step(log, n).0.contains(n),
        !nonce_step(nonce_step(log, n).0, n).1,
{
    let l = log.push(n);
    if l.len() > NONCE_MEMORY {
        let k = l.skip(l.len() - NONCE_MEMORY);
        assert(k[k.len() - 1] == n);
    } else {
        assert(l[l.len() - 1] == n);
    }
}

/// The log never remembers more than 1000 nonces.
pub proof fn nonce_log_bounded(log: Seq<Seq<char>>, n: Seq<char>)
    requires
        log.len() <= NONCE_MEMORY,
    ensures
        nonce_step(log, n).0.len() <= NONCE_MEMORY,
{
}

} // verus!
