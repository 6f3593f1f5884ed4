//! Administrative rules: the fail2ban settings and whitelist, which services
//! may be driven, how a PHP build's state is reported, licence keys, and the
//! user the web server runs as.
use vstd::prelude::*;
use crate::config::Fail2banConfig;
use crate::parse::{
    field_or_empty, lemma_field_at, lemma_lines_cons, lemma_not_prefix, lemma_strip_cr_keeps, lines,
    lines_from, one_line, split_lines, strip_cr, trimmed, views,
};
use crate::sanitize::{shell_escape, shell_quoted};
use crate::files::{lowercase, to_lowercase, to_uppercase, uppercase};
use crate::text::{
    ascii_only, byte_len, byte_length, chars_of, matches_at, owned, push_str, starts_with, str_eq,
    string_of_range,
    trim, trim_str,
};
use crate::validate::{ip_ok, valid_ip};
use crate::request::ascii_lower_of;

verus! {

// ───────────────────────── fail2ban settings ─────────────────────────

/// What is wrong with fail2ban settings that were sent in.
#[derive(Debug)]
pub enum F2bConfigError {
    /// `ban_time` is outside -1..=2592000 (up to thirty days; -1 bans for good).
    BanTime,
    /// `find_time` is outside 60..=86400.
    FindTime,
    /// `max_retry` is outside 1..=20.
    MaxRetry,
    /// A whitelist entry, the first such, is not an IP entry.
    InvalidIp(String),
}

pub open spec fn ban_time_ok(t: i64) -> bool {
    -1 <= t <= 86400 * 30
}

pub open spec fn find_time_ok(t: i64) -> bool {
    60 <= t <= 86400
}

pub open spec fn max_retry_ok(n: i32) -> bool {
    1 <= n <= 20
}

/// Every entry of the list is an IP entry.
pub open spec fn all_ips_ok(ips: Seq<Seq<char>>) -> bool {
    forall|i: int| 0 <= i < ips.len() ==> #[trigger] ip_ok(ips[i])
}

/// `i` is the first entry of `ips` that is not an IP entry.
pub open spec fn first_bad_ip(ips: Seq<Seq<char>>, i: int) -> bool {
    &&& 0 <= i < ips.len()
    &&& !ip_ok(ips[i])
    &&& forall|k: int| 0 <= k < i ==> #[trigger] ip_ok(ips[k])
}

/// Checks settings before they are saved: the numbers first, in the order
/// ban time, find time, retries, then the whitelist entries in order.
pub fn check_f2b_config(cfg: &Fail2banConfig) -> (r: Result<(), F2bConfigError>)
    ensures
        match r {
            Ok(()) => ban_time_ok(cfg.ban_time) && find_time_ok(cfg.find_time) && max_retry_ok(
                cfg.max_retry,
            ) && all_ips_ok(cfg.whitelist()),
            Err(F2bConfigError::BanTime) => !ban_time_ok(cfg.ban_time),
            Err(F2bConfigError::FindTime) => ban_time_ok(cfg.ban_time) && !find_time_ok(
                cfg.find_time,
            ),
            Err(F2bConfigError::MaxRetry) => ban_time_ok(cfg.ban_time) && find_time_ok(cfg.find_time)
                && !max_retry_ok(cfg.max_retry),
            Err(F2bConfigError::InvalidIp(ip)) => {
                &&& ban_time_ok(cfg.ban_time)
                &&& find_time_ok(cfg.find_time)
                &&& max_retry_ok(cfg.max_retry)
                &&& exists|i: int| first_bad_ip(cfg.whitelist(), i) && cfg.whitelist()[i] == ip@
            },
        },
{
    if cfg.ban_time < -1 || cfg.ban_time > 86400 * 30 {
        return Err(F2bConfigError::BanTime);
    }
    if cfg.find_time < 60 || cfg.find_time > 86400 {
        return Err(F2bConfigError::FindTime);
    }
    if cfg.max_retry < 1 || cfg.max_retry > 20 {
        return Err(F2bConfigError::MaxRetry);
    }
    let ghost w = cfg.whitelist();
    let mut i: usize = 0;
    while i < cfg.whitelist_ips.len()
        invariant
            i <= cfg.whitelist_ips.len(),
            w == cfg.whitelist(),
            w.len() == cfg.whitelist_ips.len(),
            ban_time_ok(cfg.ban_time) && find_time_ok(cfg.find_time) && max_retry_ok(cfg.max_retry),
            forall|k: int| 0 <= k < i ==> #[trigger] ip_ok(w[k]),
        decreases cfg.whitelist_ips.len() - i,
    {
        assert(w[i as int] == cfg.whitelist_ips@[i as int]@);
        if !valid_ip(cfg.whitelist_ips[i].as_str()) {
            let bad = owned(cfg.whitelist_ips[i].as_str());
            assert(first_bad_ip(w, i as int));
            assert(cfg.whitelist()[i as int] == bad@);
            return Err(F2bConfigError::InvalidIp(bad));
        }
        i += 1;
    }
    Ok(())
}

// ───────────────────────── fail2ban whitelist ─────────────────────────

/// A change to the whitelist.
#[derive(Clone, Copy, Debug, PartialEq, Eq, Structural)]
pub enum WhitelistAction {
    Add,
    Remove,
}

/// Reads the action word of a whitelist request: `add` or `remove`.
pub fn whitelist_action(word: &str) -> (r: Option<WhitelistAction>)
    ensures
        word@ == "add"@ <==> r == Some(WhitelistAction::Add),
        word@ == "remove"@ <==> r == Some(WhitelistAction::Remove),
        r is None <==> word@ != "add"@ && word@ != "remove"@,
{
    proof {
        reveal_strlit("add");
        reveal_strlit("remove");
    }
    assert("add"@.len() != "remove"@.len());
    if str_eq(word, "add") {
        Some(WhitelistAction::Add)
    } else if str_eq(word, "remove") {
        Some(WhitelistAction::Remove)
    } else {
        None
    }
}

/// `ips` without any entry equal to `ip`, in order.
pub open spec fn without_ip(ips: Seq<Seq<char>>, ip: Seq<char>) -> Seq<Seq<char>>
    decreases ips.len(),
{
    if ips.len() == 0 {
        Seq::empty()
    } else if ips.last() == ip {
        without_ip(ips.drop_last(), ip)
    } else {
        without_ip(ips.drop_last(), ip).push(ips.last())
    }
}

/// The whitelist after an action: an entry is appended unless already
/// there; a removal takes out every copy.
pub open spec fn whitelist_after(ips: Seq<Seq<char>>, ip: Seq<char>, action: WhitelistAction) -> Seq<
    Seq<char>,
> {
    match action {
        WhitelistAction::Add => if ips.contains(ip) {
            ips
        } else {
            ips.push(ip)
        },
        WhitelistAction::Remove => without_ip(ips, ip),
    }
}

/// Applies a whitelist action to the list.
pub fn update_whitelist(ips: &mut Vec<String>, ip: &str, action: WhitelistAction)
    ensures
        views(final(ips)@) == whitelist_after(views(old(ips)@), ip@, action),
{
    let ghost orig = views(ips@);
    match action {
        WhitelistAction::Add => {
            let mut i: usize = 0;
            while i < ips.len()
                invariant
                    i <= ips.len(),
                    orig == views(ips@),
                    orig == views(old(ips)@),
                    action == WhitelistAction::Add,
                    forall|k: int| 0 <= k < i ==> #[trigger] orig[k] != ip@,
                decreases ips.len() - i,
            {
                if str_eq(ips[i].as_str(), ip) {
                    assert(orig[i as int] == ip@);
                    assert(orig.contains(ip@));
                    return;
                }
                i += 1;
            }
            assert(!orig.contains(ip@));
            ips.push(owned(ip));
            assert(views(ips@) =~= orig.push(ip@));
        },
        WhitelistAction::Remove => {
            let mut kept: Vec<String> = Vec::new();
            let mut i: usize = 0;
            while i < ips.len()
                invariant
                    i <= ips.len(),
                    orig == views(ips@),
                    views(kept@) == without_ip(orig.take(i as int), ip@),
                decreases ips.len() - i,
            {
                assert(orig.take(i + 1).drop_last() =~= orig.take(i as int));
                assert(orig.take(i + 1).last() == ips@[i as int]@);
                if !str_eq(ips[i].as_str(), ip) {
                    let ghost before = kept@;
                    kept.push(owned(ips[i].as_str()));
                    assert(views(kept@) =~= views(before).push(ips@[i as int]@));
                }
                i += 1;
            }
            assert(orig.take(ips.len() as int) =~= orig);
            *ips = kept;
        },
    }
}

/// Why a whitelist request was turned down.
#[derive(Debug)]
pub enum WhitelistError {
    /// The address is not an IP entry.
    InvalidIp,
    /// The action is neither `add` nor `remove`.
    BadAction,
}

/// A whitelist request as the panel handles it: the address is checked
/// first, then the action word; only then is the list changed.
pub fn whitelist_request(cfg: &mut Fail2banConfig, ip: &str, action: &str) -> (r: Result<
    (),
    WhitelistError,
>)
    ensures
        !ip_ok(ip@) <==> r == Err::<(), WhitelistError>(WhitelistError::InvalidIp),
        ip_ok(ip@) && action@ != "add"@ && action@ != "remove"@ <==> r == Err::<(), WhitelistError>(
            WhitelistError::BadAction,
        ),
        r is Err ==> *final(cfg) == *old(cfg),
        r is Ok ==> {
            &&& final(cfg).enabled == old(cfg).enabled
            &&& final(cfg).ban_time == old(cfg).ban_time
            &&& final(cfg).find_time == old(cfg).find_time
            &&& final(cfg).max_retry == old(cfg).max_retry
            &&& final(cfg).whitelist() == whitelist_after(
                old(cfg).whitelist(),
                ip@,
                if action@ == "add"@ {
                    WhitelistAction::Add
                } else {
                    WhitelistAction::Remove
                },
            )
        },
{
    if !valid_ip(ip) {
        return Err(WhitelistError::InvalidIp);
    }
    let a = match whitelist_action(action) {
        Some(a) => a,
        None => return Err(WhitelistError::BadAction),
    };
    update_whitelist(&mut cfg.whitelist_ips, ip, a);
    Ok(())
}

proof fn lemma_without_ip_absent(ips: Seq<Seq<char>>, ip: Seq<char>)
    ensures
        !without_ip(ips, ip).contains(ip),
        forall|x: Seq<char>| x != ip && ips.contains(x) ==> #[trigger] without_ip(ips, ip).contains(x),
    decreases ips.len(),
{
    if ips.len() > 0 {
        lemma_without_ip_absent(ips.drop_last(), ip);
        let rest = without_ip(ips.drop_last(), ip);
        assert forall|x: Seq<char>| x != ip && ips.contains(x) implies #[trigger] without_ip(
            ips,
            ip,
        ).contains(x) by {
            let j = choose|j: int| 0 <= j < ips.len() && ips[j] == x;
            if j < ips.len() - 1 {
                assert(ips.drop_last()[j] == x);
                assert(ips.drop_last().contains(x));
                assert(rest.contains(x));
                let k = choose|k: int| 0 <= k < rest.len() && rest[k] == x;
                if ips.last() != ip {
                    assert(rest.push(ips.last())[k] == x);
                }
            } else {
                assert(rest.push(ips.last()).last() == x);
            }
        }
        if ips.last() != ip {
            assert forall|k: int| 0 <= k < rest.push(ips.last()).len() implies rest.push(
                ips.last(),
            )[k] != ip by {
                if k < rest.len() {
                    assert(rest[k] != ip);
                }
            }
        }
    }
}

proof fn lemma_without_ip_not_there(ips: Seq<Seq<char>>, ip: Seq<char>)
    requires
        !ips.contains(ip),
    ensures
        without_ip(ips, ip) == ips,
    decreases ips.len(),
{
    if ips.len() > 0 {
        assert(!ips.drop_last().contains(ip)) by {
            if ips.drop_last().contains(ip) {
                let j = choose|j: int| 0 <= j < ips.drop_last().len() && ips.drop_last()[j] == ip;
                assert(ips[j] == ip);
            }
        }
        lemma_without_ip_not_there(ips.drop_last(), ip);
        assert(ips.last() != ip);
        assert(ips.drop_last().push(ips.last()) =~= ips);
    }
}

/// After an address is added to the whitelist it is on it; after it is
/// removed it is not, and every other address that was there stays.
pub proof fn whitelist_add_remove(ips: Seq<Seq<char>>, ip: Seq<char>)
    ensures
        whitelist_after(ips, ip, WhitelistAction::Add).contains(ip),
        !whitelist_after(ips, ip, WhitelistAction::Remove).contains(ip),
        forall|x: Seq<char>|
            x != ip && ips.contains(x) ==> #[trigger] whitelist_after(
                ips,
                ip,
                WhitelistAction::Remove,
            ).contains(x),
{
    if !ips.contains(ip) {
        assert(ips.push(ip).last() == ip);
    }
    lemma_without_ip_absent(ips, ip);
}

/// Adding an address twice leaves the list as adding it once; adding an
/// address that was not there and then removing it gives the list back.
pub proof fn whitelist_add_idempotent_and_undone(ips: Seq<Seq<char>>, ip: Seq<char>)
    ensures
        whitelist_after(whitelist_after(ips, ip, WhitelistAction::Add), ip, WhitelistAction::Add)
            == whitelist_after(ips, ip, WhitelistAction::Add),
        !ips.contains(ip) ==> whitelist_after(
            whitelist_after(ips, ip, WhitelistAction::Add),
            ip,
            WhitelistAction::Remove,
        ) == ips,
{
    whitelist_add_remove(ips, ip);
    if !ips.contains(ip) {
        lemma_without_ip_not_there(ips, ip);
        assert(ips.push(ip).drop_last() =~= ips);
        assert(without_ip(ips.push(ip), ip) == without_ip(ips, ip));
    }
}

// ───────────────────────── services ─────────────────────────

/// The views of a list of string slices.
pub open spec fn str_views(v: Seq<&str>) -> Seq<Seq<char>> {
    v.map_values(|s: &str| s@)
}

/// Whether `x` is one of the strings of `list`.
pub fn member(x: &str, list: &Vec<&str>) -> (r: bool)
    ensures
        r == str_views(list@).contains(x@),
{
    let mut i: usize = 0;
    while i < list.len()
        invariant
            i <= list.len(),
            forall|k: int| 0 <= k < i ==> #[trigger] str_views(list@)[k] != x@,
        decreases list.len() - i,
    {
        if str_eq(list[i], x) {
            assert(str_views(list@)[i as int] == x@);
            return true;
        }
        i += 1;
    }
    false
}

/// The services the panel may start, stop or query.
pub open spec fn managed_services() -> Seq<Seq<char>> {
    seq![
        "nginx"@,
        "mysqld"@,
        "mysql"@,
        "fail2ban"@,
        "crond"@,
        "redis"@,
        "php74-php-fpm"@,
        "php80-php-fpm"@,
        "php81-php-fpm"@,
        "php82-php-fpm"@,
        "php83-php-fpm"@,
        "php84-php-fpm"@,
    ]
}

/// What may be done to a managed service.
pub open spec fn service_actions() -> Seq<Seq<char>> {
    seq!["start"@, "stop"@, "restart"@, "status"@, "reload"@]
}

/// Whether `action` on `service` is allowed: both must be on their lists.
pub fn service_action_allowed(service: &str, action: &str) -> (r: bool)
    ensures
        r == (managed_services().contains(service@) && service_actions().contains(action@)),
{
    let svcs: Vec<&str> = vec![
        "nginx",
        "mysqld",
        "mysql",
        "fail2ban",
        "crond",
        "redis",
        "php74-php-fpm",
        "php80-php-fpm",
        "php81-php-fpm",
        "php82-php-fpm",
        "php83-php-fpm",
        "php84-php-fpm",
    ];
    let acts: Vec<&str> = vec!["start", "stop", "restart", "status", "reload"];
    assert(str_views(svcs@) =~= managed_services());
    assert(str_views(acts@) =~= service_actions());
    member(service, &svcs) && member(action, &acts)
}

/// The `systemctl` command line for a service action.
pub open spec fn service_command_text(action: Seq<char>, service: Seq<char>) -> Seq<char> {
    "systemctl "@ + shell_quoted(action) + " "@ + shell_quoted(service) + " 2>&1"@
}

/// The `systemctl` command line for a service action, both words quoted.
pub fn service_command(action: &str, service: &str) -> (r: String)
    ensures
        r@ == service_command_text(action@, service@),
{
    let mut s = owned("systemctl ");
    push_str(&mut s, shell_escape(action).as_str());
    push_str(&mut s, " ");
    push_str(&mut s, shell_escape(service).as_str());
    push_str(&mut s, " 2>&1");
    assert(s@ =~= service_command_text(action@, service@));
    s
}

/// How a PHP build is reported: `active` when its service runs and a socket
/// exists, `active-nosocket` when it runs without one, else what systemd
/// said.
pub open spec fn php_state_text(status: Seq<char>, socket_ok: bool) -> Seq<char> {
    if status == "active"@ && socket_ok {
        "active"@
    } else if status == "active"@ {
        "active-nosocket"@
    } else {
        status
    }
}

/// Reports a PHP build's state from systemd's (trimmed) answer and whether
/// a socket exists.
pub fn php_state(status: &str, socket_ok: bool) -> (r: String)
    ensures
        r@ == php_state_text(status@, socket_ok),
{
    if str_eq(status, "active") {
        if socket_ok {
            owned("active")
        } else {
            owned("active-nosocket")
        }
    } else {
        owned(status)
    }
}

// ───────────────────────── the web server's user ─────────────────────────

/// Some line of `text` starts with `prefix`.
pub open spec fn has_line_starting(text: Seq<char>, prefix: Seq<char>) -> bool {
    exists|i: int| 0 <= i < lines(text).len() && #[trigger] starts_with(lines(text)[i], prefix)
}

/// The user the web server runs as, from the password file's text:
/// `nginx`, `apache` or `www-data`, the first that has an account, and
/// `nginx` when none has or the file could not be read.
pub open spec fn web_user_of(passwd: Option<Seq<char>>) -> Seq<char> {
    match passwd {
        Some(t) => if has_line_starting(t, "nginx:"@) {
            "nginx"@
        } else if has_line_starting(t, "apache:"@) {
            "apache"@
        } else if has_line_starting(t, "www-data:"@) {
            "www-data"@
        } else {
            "nginx"@
        },
        None => "nginx"@,
    }
}

fn any_line_starts(ls: &Vec<String>, prefix: &str) -> (r: bool)
    ensures
        r == exists|i: int| 0 <= i < ls@.len() && #[trigger] starts_with(views(ls@)[i], prefix@),
{
    let p = chars_of(prefix);
    let mut i: usize = 0;
    while i < ls.len()
        invariant
            i <= ls.len(),
            p@ == prefix@,
            forall|k: int| 0 <= k < i ==> !#[trigger] starts_with(views(ls@)[k], prefix@),
        decreases ls.len() - i,
    {
        let l = chars_of(ls[i].as_str());
        assert(views(ls@)[i as int] == l@);
        if matches_at(&l, 0, &p) {
            assert(starts_with(views(ls@)[i as int], prefix@));
            return true;
        }
        i += 1;
    }
    false
}

/// The user the web server runs as, given the text of `/etc/passwd` when it
/// could be read.
pub fn detect_web_user(passwd: Option<&str>) -> (r: &'static str)
    ensures
        r@ == web_user_of(
            match passwd {
                Some(t) => Some(t@),
                None => None,
            },
        ),
{
    match passwd {
        Some(t) => {
            let ls = split_lines(t);
            if any_line_starts(&ls, "nginx:") {
                "nginx"
            } else if any_line_starts(&ls, "apache:") {
                "apache"
            } else if any_line_starts(&ls, "www-data:") {
                "www-data"
            } else {
                "nginx"
            }
        },
        None => "nginx",
    }
}

// ───────────────────────── licence keys ─────────────────────────

/// A licence key as typed, normalised: trimmed and upper-cased.
pub open spec fn normalized_key(key: Seq<char>) -> Seq<char> {
    uppercase(trim(key))
}

/// Normalises a licence key: trims it and upper-cases it.
pub fn normalize_license_key(key: &str) -> (r: String)
    ensures
        r@ == normalized_key(key@),
{
    let t = trim_str(key);
    to_uppercase(t.as_str())
}

/// The shape a licence key must have before it is sent for activation:
/// `NIT-` and 23 bytes in all (`NIT-XXXX-XXXX-XXXX-XXXX`).
pub open spec fn license_shape_ok(key: Seq<char>) -> bool {
    starts_with(key, "NIT-"@) && byte_len(key) == 23
}

/// Whether a (normalised) licence key has the expected shape.
pub fn license_key_shape_ok(key: &str) -> (r: bool)
    ensures
        r == license_shape_ok(key@),
{
    let v = chars_of(key);
    let p = chars_of("NIT-");
    matches_at(&v, 0, &p) && byte_length(key) == 23
}

/// UTF-8 bytes taken by one character.
pub open spec fn char_width(c: char) -> nat {
    vstd::utf8::encode_scalar(c as u32).len()
}

proof fn lemma_encode_concat(a: Seq<char>, b: Seq<char>)
    ensures
        vstd::utf8::encode_utf8(a + b) == vstd::utf8::encode_utf8(a) + vstd::utf8::encode_utf8(b),
    decreases a.len(),
{
    if a.len() == 0 {
        assert(a + b =~= b);
        assert(vstd::utf8::encode_utf8(a) =~= Seq::<u8>::empty());
        assert(Seq::<u8>::empty() + vstd::utf8::encode_utf8(b) =~= vstd::utf8::encode_utf8(b));
    } else {
        assert((a + b).drop_first() =~= a.drop_first() + b);
        assert((a + b)[0] == a[0]);
        lemma_encode_concat(a.drop_first(), b);
        let e0 = vstd::utf8::encode_scalar(a[0] as u32);
        assert(e0 + (vstd::utf8::encode_utf8(a.drop_first()) + vstd::utf8::encode_utf8(b)) =~= (e0
            + vstd::utf8::encode_utf8(a.drop_first())) + vstd::utf8::encode_utf8(b));
    }
}

/// Taking one more character adds its width to the byte length.
proof fn lemma_byte_len_take(s: Seq<char>, i: int)
    requires
        0 <= i < s.len(),
    ensures
        byte_len(s.take(i + 1)) == byte_len(s.take(i)) + char_width(s[i]),
        char_width(s[i]) >= 1,
{
    let e = seq![s[i]];
    assert(s.take(i + 1) =~= s.take(i) + e);
    lemma_encode_concat(s.take(i), e);
    assert(e[0] == s[i]);
    assert(e.drop_first() =~= Seq::<char>::empty());
    assert(vstd::utf8::encode_utf8(e.drop_first()) =~= Seq::<u8>::empty());
    assert(vstd::utf8::encode_utf8(e) == vstd::utf8::encode_scalar(e[0] as u32)
        + vstd::utf8::encode_utf8(e.drop_first()));
    assert(vstd::utf8::encode_utf8(e) =~= vstd::utf8::encode_scalar(s[i] as u32));
}

/// A prefix takes no more bytes than the whole.
proof fn lemma_byte_len_prefix(s: Seq<char>, k: int)
    requires
        0 <= k <= s.len(),
    ensures
        byte_len(s.take(k)) <= byte_len(s),
{
    assert(s.take(k) + s.skip(k) =~= s);
    lemma_encode_concat(s.take(k), s.skip(k));
}

/// Longer prefixes take more bytes.
proof fn lemma_byte_len_increasing(s: Seq<char>, k: int, m: int)
    requires
        0 <= k < m <= s.len(),
    ensures
        byte_len(s.take(k)) < byte_len(s.take(m)),
    decreases m - k,
{
    lemma_byte_len_take(s, m - 1);
    if k < m - 1 {
        lemma_byte_len_increasing(s, k, m - 1);
    }
}

fn width_of(c: char) -> (n: usize)
    ensures
        n == char_width(c),
        1 <= n <= 4,
{
    let u = c as u32;
    if u <= 0x7f {
        1
    } else if u <= 0x7ff {
        2
    } else if u <= 0xffff {
        3
    } else {
        4
    }
}

/// Byte offset `b` of `s` falls between two characters.
pub open spec fn char_boundary(s: Seq<char>, b: int) -> bool {
    exists|k: int| 0 <= k <= s.len() && byte_len(s.take(k)) == b
}

/// The key shown to the operator: a key longer than 11 bytes keeps its
/// first and last 4 bytes, and `****-****-****` takes the place of the rest.
pub open spec fn masked_key_text(key: Seq<char>, a: int, b: int) -> Seq<char> {
    key.take(a) + "****-****-****"@ + key.skip(b)
}

/// Which characters begin at byte offsets `lo` and `hi`.
fn cut_points(v: &Vec<char>, total: usize, lo: usize, hi: usize) -> (r: (Option<usize>, Option<usize>))
    requires
        byte_len(v@) == total,
    ensures
        r.0 matches Some(a) ==> a <= v.len() && byte_len(v@.take(a as int)) == lo,
        r.1 matches Some(b) ==> b <= v.len() && byte_len(v@.take(b as int)) == hi,
        r.0 is None ==> !char_boundary(v@, lo as int),
        r.1 is None ==> !char_boundary(v@, hi as int),
{
    let mut a: Option<usize> = None;
    let mut b: Option<usize> = None;
    let mut n: usize = 0;
    let mut i: usize = 0;
    assert(v@.take(0) =~= Seq::<char>::empty());
    assert(vstd::utf8::encode_utf8(Seq::<char>::empty()) =~= Seq::<u8>::empty());
    while i < v.len()
        invariant
            i <= v.len(),
            byte_len(v@) == total,
            n == byte_len(v@.take(i as int)),
            a matches Some(x) ==> x <= v.len() && byte_len(v@.take(x as int)) == lo,
            b matches Some(x) ==> x <= v.len() && byte_len(v@.take(x as int)) == hi,
            a is None ==> forall|k: int| 0 <= k < i ==> #[trigger] byte_len(v@.take(k)) != lo,
            b is None ==> forall|k: int| 0 <= k < i ==> #[trigger] byte_len(v@.take(k)) != hi,
        decreases v.len() - i,
    {
        if a.is_none() && n == lo {
            a = Some(i);
        }
        if b.is_none() && n == hi {
            b = Some(i);
        }
        proof {
            lemma_byte_len_take(v@, i as int);
            lemma_byte_len_prefix(v@, i + 1);
        }
        let w = width_of(v[i]);
        n = n + w;
        i += 1;
    }
    assert(v@.take(i as int) =~= v@);
    if a.is_none() && n == lo {
        a = Some(i);
    }
    if b.is_none() && n == hi {
        b = Some(i);
    }
    (a, b)
}

/// The licence key as shown: longer than 11 bytes, its middle is masked.
/// The two cut points must fall between characters (a key of ASCII
/// characters always does).
pub fn mask_license_key(key: &str) -> (r: String)
    requires
        byte_len(key@) > 11 ==> char_boundary(key@, 4) && char_boundary(
            key@,
            byte_len(key@) - 4,
        ),
    ensures
        byte_len(key@) <= 11 ==> r@ == key@,
        byte_len(key@) > 11 ==> exists|a: int, b: int|
            0 <= a <= b <= key@.len() && byte_len(key@.take(a)) == 4 && byte_len(key@.take(b))
                == byte_len(key@) - 4 && #[trigger] masked_key_text(key@, a, b) == r@,
{
    let total = byte_length(key);
    if total <= 11 {
        return owned(key);
    }
    let v = chars_of(key);
    let (a, b) = cut_points(&v, total, 4, total - 4);
    let a = match a {
        Some(x) => x,
        None => {
            return owned(key);
        },
    };
    let b = match b {
        Some(x) => x,
        None => {
            return owned(key);
        },
    };
    assert(a <= b) by {
        if b < a {
            lemma_byte_len_increasing(v@, b as int, a as int);
        }
    }
    let mut s = string_of_range(&v, 0, a);
    push_str(&mut s, "****-****-****");
    push_str(&mut s, string_of_range(&v, b, v.len()).as_str());
    assert(v@.subrange(0, a as int) =~= v@.take(a as int));
    assert(v@.subrange(b as int, v.len() as int) =~= v@.skip(b as int));
    assert(s@ =~= masked_key_text(key@, a as int, b as int));
    s
}

// ───────────────────────── fail2ban service ─────────────────────────

/// The command that applies fail2ban's state: enable and reload (or restart)
/// when it is on, stop and disable when it is off.
pub open spec fn f2b_service_command_text(enabled: bool) -> Seq<char> {
    if enabled {
        "systemctl enable fail2ban 2>&1 && (systemctl reload fail2ban 2>&1 || systemctl restart fail2ban 2>&1)"@
    } else {
        "systemctl stop fail2ban 2>/dev/null; systemctl disable fail2ban 2>/dev/null; echo 'Fail2ban disabled'"@
    }
}

/// The command that applies fail2ban's on/off state.
pub fn f2b_service_command(enabled: bool) -> (r: &'static str)
    ensures
        r@ == f2b_service_command_text(enabled),
{
    if enabled {
        "systemctl enable fail2ban 2>&1 && (systemctl reload fail2ban 2>&1 || systemctl restart fail2ban 2>&1)"
    } else {
        "systemctl stop fail2ban 2>/dev/null; systemctl disable fail2ban 2>/dev/null; echo 'Fail2ban disabled'"
    }
}

/// The settings of a fresh panel: off, one-hour bans, a ten-minute window,
/// five tries, nothing whitelisted.
pub fn initial_f2b_config() -> (c: Fail2banConfig)
    ensures
        !c.enabled,
        c.ban_time == 3600,
        c.find_time == 600,
        c.max_retry == 5,
        c.whitelist_ips@.len() == 0,
{
    Fail2banConfig {
        enabled: false,
        ban_time: 3600,
        find_time: 600,
        max_retry: 5,
        whitelist_ips: Vec::new(),
    }
}

// ───────────────────────── MySQL root password ─────────────────────────

/// Why a change of the MySQL root password was refused before anything ran.
#[derive(Clone, Copy, Debug, PartialEq, Eq, Structural)]
pub enum RootChangeError {
    /// The admin password was not given.
    MissingAdminPassword,
    /// The new password is not a valid database password.
    WeakPassword,
}

/// Checks a root-password change request: the admin password must be given,
/// then the new password must be a valid database password.
pub fn check_root_change(admin_password: &str, new_password: &str) -> (r: Result<(), RootChangeError>)
    ensures
        admin_password@.len() == 0 <==> r == Err::<(), RootChangeError>(
            RootChangeError::MissingAdminPassword,
        ),
        admin_password@.len() > 0 && !crate::validate::db_password_ok(new_password@) <==> r == Err::<
            (),
            RootChangeError,
        >(RootChangeError::WeakPassword),
{
    if admin_password.is_empty() {
        return Err(RootChangeError::MissingAdminPassword);
    }
    if !crate::validate::valid_db_password(new_password) {
        return Err(RootChangeError::WeakPassword);
    }
    Ok(())
}

// ───────────────────────── shared phpMyAdmin login ─────────────────────────

/// The login name of the shared phpMyAdmin: `pma_` and the random part in
/// lower case.
pub fn pma_user_name(random: &str) -> (r: String)
    ensures
        r@ == "pma_"@ + lowercase(random@),
        ascii_only(random@) ==> r@ == "pma_"@ + random@.map_values(|c: char| ascii_lower_of(c)),
{
    let mut s = owned("pma_");
    push_str(&mut s, to_lowercase(random).as_str());
    s
}

/// The command that hashes a password for the basic-auth file.
pub open spec fn apr1_command_text(pass: Seq<char>) -> Seq<char> {
    "openssl passwd -apr1 "@ + shell_quoted(pass)
}

/// The command that hashes a password for the basic-auth file.
pub fn apr1_command(pass: &str) -> (r: String)
    ensures
        r@ == apr1_command_text(pass@),
{
    let mut s = owned("openssl passwd -apr1 ");
    push_str(&mut s, shell_escape(pass).as_str());
    s
}

/// The basic-auth file's line: the user, `:`, the trimmed hash.
pub fn htpasswd_line(user: &str, hashed: &str) -> (r: String)
    ensures
        r@ == user@ + ":"@ + trim(hashed@) + "\n"@,
{
    let mut s = owned(user);
    push_str(&mut s, ":");
    push_str(&mut s, trim_str(hashed).as_str());
    push_str(&mut s, "\n");
    s
}

/// The note of the shared phpMyAdmin login.
pub open spec fn pma_info_text(user: Seq<char>, pass: Seq<char>) -> Seq<char> {
    "user="@ + user + "\npassword="@ + pass + "\n"@
}

/// The note of the shared phpMyAdmin login.
pub fn pma_info_note(user: &str, pass: &str) -> (r: String)
    ensures
        r@ == pma_info_text(user@, pass@),
{
    let mut s = owned("user=");
    push_str(&mut s, user);
    push_str(&mut s, "\npassword=");
    push_str(&mut s, pass);
    push_str(&mut s, "\n");
    assert(s@ =~= pma_info_text(user@, pass@));
    s
}

// ───────────────────────── session tokens ─────────────────────────

/// How long a session token lasts: four hours.
pub const TOKEN_TTL_SECS: u64 = 14400;

/// The claims of a session token issued at `now`.
pub struct TokenClaims {
    pub sub: String,
    pub exp: u64,
    pub iat: u64,
}

/// The claims of a session token issued at `now`: the admin, valid for four
/// hours.
pub fn token_claims(now: u64) -> (c: TokenClaims)
    requires
        now + 14400 <= u64::MAX,
    ensures
        c.sub@ == "admin"@,
        c.iat == now,
        c.exp == now + 14400,
{
    TokenClaims { sub: owned("admin"), exp: now + TOKEN_TTL_SECS, iat: now }
}

/// The claims of a token as plain values: subject, expiry and issue time.
pub open spec fn claims_view(c: Option<TokenClaims>) -> Option<(Seq<char>, u64, u64)> {
    match c {
        Some(c) => Some((c.sub@, c.exp, c.iat)),
        None => None,
    }
}

/// The claims that `jsonwebtoken::decode` reads from `token` signed with
/// `secret` (HS256, expiry not checked): `None` when the signature, the
/// format, the algorithm or the claims' types do not fit.
pub uninterp spec fn jwt_claims_of(token: Seq<char>, secret: Seq<char>) -> Option<(Seq<char>, u64, u64)>;

/// Calls `jsonwebtoken::decode` with an HS256 key made from `secret`, the
/// expiry check turned off (the `exp` claim is still required), and reads the
/// `sub`, `exp` and `iat` claims. Decoding depends on its arguments alone.
#[verifier::external_body]
fn decode_claims(token: &str, secret: &str) -> (r: Option<TokenClaims>)
    ensures
        claims_view(r) == jwt_claims_of(token@, secret@),
{
    let mut v = jsonwebtoken::Validation::new(jsonwebtoken::Algorithm::HS256);
    v.validate_exp = false;
    let key = jsonwebtoken::DecodingKey::from_secret(secret.as_bytes());
    let d: std::collections::HashMap<String, serde_json::Value> =
        jsonwebtoken::decode(token, &key, &v).ok()?.claims;
    let sub = d.get("sub")?.as_str()?.to_string();
    let exp = d.get("exp")?.as_u64()?;
    let iat = d.get("iat")?.as_u64()?;
    Some(TokenClaims { sub, exp, iat })
}

/// `token` is accepted at `now` under `secret`: it decodes and has not
/// expired.
pub open spec fn token_accepted(token: Seq<char>, secret: Seq<char>, now: u64) -> bool {
    jwt_claims_of(token, secret) matches Some((_, exp, _)) && now <= exp
}

/// Whether `token` is a session token signed with `secret` that has not
/// expired at `now`.
pub fn check_token(token: &str, secret: &str, now: u64) -> (r: bool)
    ensures
        r == token_accepted(token@, secret@, now),
{
    match decode_claims(token, secret) {
        Some(c) => now <= c.exp,
        None => false,
    }
}

/// The token that `jsonwebtoken::encode` makes of the claims `sub`, `exp`
/// and `iat` with the default (HS256) header and the key `secret`.
pub uninterp spec fn jwt_encoded(sub: Seq<char>, exp: u64, iat: u64, secret: Seq<char>) -> Seq<char>;

/// Calls `jsonwebtoken::encode` with the default header (HS256), the claims
/// `sub`, `exp` and `iat` (a map, written in a fixed key order) and an HMAC key
/// made from `secret`. By the crate's source it fails only when the key's
/// family differs from the header's algorithm or the claims cannot be
/// serialized, neither of which can happen here; and `decode` with the same
/// secret (HS256, expiry not checked) reads the same three claims back.
#[verifier::external_body]
fn encode_claims(sub: &str, exp: u64, iat: u64, secret: &str) -> (r: Option<String>)
    ensures
        r is Some,
        r matches Some(t) ==> t@ == jwt_encoded(sub@, exp, iat, secret@) && jwt_claims_of(t@, secret@)
            == Some((sub@, exp, iat)),
{
    let mut claims: std::collections::BTreeMap<String, serde_json::Value> = std::collections::BTreeMap::new();
    claims.insert("sub".to_string(), serde_json::Value::from(sub));
    claims.insert("exp".to_string(), serde_json::Value::from(exp));
    claims.insert("iat".to_string(), serde_json::Value::from(iat));
    let key = jsonwebtoken::EncodingKey::from_secret(secret.as_bytes());
    jsonwebtoken::encode(&jsonwebtoken::Header::default(), &claims, &key).ok()
}

/// A session token issued at `now` under `secret`: the admin's claims,
/// valid for four hours. It is accepted exactly until then.
pub fn make_token(now: u64, secret: &str) -> (r: String)
    requires
        now + TOKEN_TTL_SECS <= u64::MAX,
    ensures
        r@ == jwt_encoded("admin"@, (now + TOKEN_TTL_SECS) as u64, now, secret@),
        forall|t: u64| #[trigger] token_accepted(r@, secret@, t) <==> t <= now + TOKEN_TTL_SECS,
{
    let c = token_claims(now);
    match encode_claims(c.sub.as_str(), c.exp, c.iat, secret) {
        Some(t) => t,
        None => String::new(),
    }
}

/// The shared phpMyAdmin login the note is written with is the one read
/// from it, when user and password are not empty, span no lines and have no
/// whitespace around them.
pub proof fn pma_info_reads_back(user: Seq<char>, pass: Seq<char>)
    requires
        user.len() > 0,
        pass.len() > 0,
        one_line(user),
        one_line(pass),
        trimmed(user),
        trimmed(pass),
    ensures
        field_or_empty(lines(pma_info_text(user, pass)), "user="@) == user,
        field_or_empty(lines(pma_info_text(user, pass)), "password="@) == pass,
{
    reveal_strlit("user=");
    reveal_strlit("\npassword=");
    reveal_strlit("password=");
    reveal_strlit("\n");
    let l1 = "user="@ + user;
    let l2 = "password="@ + pass;
    let nl = seq!['\n'];
    let e = Seq::<char>::empty();
    assert(pma_info_text(user, pass) =~= l1 + nl + (l2 + nl + e));
    assert(one_line(l1)) by {
        if l1.contains('\n') {
            let j = choose|j: int| 0 <= j < l1.len() && l1[j] == '\n';
            assert(user[j - 5] == '\n');
        }
    }
    assert(one_line(l2)) by {
        if l2.contains('\n') {
            let j = choose|j: int| 0 <= j < l2.len() && l2[j] == '\n';
            assert(pass[j - 9] == '\n');
        }
    }
    lemma_lines_cons(l2, e, e);
    lemma_lines_cons(l1, l2 + nl + e, e);
    assert(lines_from(e, e) =~= Seq::<Seq<char>>::empty());
    lemma_strip_cr_keeps("user="@, user);
    lemma_strip_cr_keeps("password="@, pass);
    assert(e + l1 =~= l1);
    assert(e + l2 =~= l2);
    let ls = lines(pma_info_text(user, pass));
    assert(ls =~= seq![l1, l2]);
    lemma_not_prefix(l2, "user="@);
    assert(l1 =~= "user="@ + e + user);
    assert(l2 =~= "password="@ + e + pass);
    lemma_field_at(ls, "user="@, e, user, 0);
    lemma_field_at(ls, "password="@, e, pass, 1);
}

// ───────────────────────── licence status and server identity ─────────────────────────

/// The support level shown for the licence state.
pub open spec fn license_status_text(licensed: bool) -> Seq<char> {
    if licensed {
        "Pro License - Ho tro uu tien"@
    } else {
        "Free - Ho tro cong dong"@
    }
}

/// The support level shown for the licence state.
pub fn license_status_label(licensed: bool) -> (r: &'static str)
    ensures
        r@ == license_status_text(licensed),
{
    if licensed {
        "Pro License - Ho tro uu tien"
    } else {
        "Free - Ho tro cong dong"
    }
}

/// The server's identity for the licence server: the machine id, trimmed,
/// or `unknown` when it could not be read or is blank.
pub open spec fn server_id_text(machine_id: Option<Seq<char>>) -> Seq<char> {
    match machine_id {
        Some(t) => if trim(t).len() > 0 {
            trim(t)
        } else {
            "unknown"@
        },
        None => "unknown"@,
    }
}

/// The server's identity from the text of `/etc/machine-id`, when it could
/// be read.
pub fn server_id(machine_id: Option<&str>) -> (r: String)
    ensures
        r@ == server_id_text(
            match machine_id {
                Some(t) => Some(t@),
                None => None,
            },
        ),
{
    match machine_id {
        Some(t) => {
            let v = trim_str(t);
            if v.as_str().is_empty() {
                owned("unknown")
            } else {
                v
            }
        },
        None => owned("unknown"),
    }
}

/// An address of the licence server's interface.
pub open spec fn license_url_text(server: Seq<char>, action: Seq<char>) -> Seq<char> {
    server + "/api/v1/"@ + action
}

/// An address of the licence server's interface (`activate`, `check`,
/// `deactivate`).
pub fn license_url(server: &str, action: &str) -> (r: String)
    ensures
        r@ == license_url_text(server@, action@),
{
    let mut s = owned(server);
    push_str(&mut s, "/api/v1/");
    push_str(&mut s, action);
    s
}

/// The licence server to use: the one configured, else the maintainer's.
pub fn license_server(configured: Option<&str>) -> (r: String)
    ensures
        r@ == match configured {
            Some(c) => c@,
            None => "https://license.netihot.com"@,
        },
{
    match configured {
        Some(c) => owned(c),
        None => owned("https://license.netihot.com"),
    }
}

/// The secret that signs session tokens: the one configured, else 48
/// random letters and digits.
pub fn session_secret(configured: Option<&str>) -> (r: String)
    ensures
        configured matches Some(c) ==> r@ == c@,
        configured is None ==> r@.len() == 48 && forall|i: int|
            0 <= i < 48 ==> crate::text::is_ascii_alnum(#[trigger] r@[i]),
{
    match configured {
        Some(c) => owned(c),
        None => crate::auth::random_alnum(48),
    }
}

// ───────────────────────── packages and sharing ─────────────────────────

/// The command that tells whether a program is installed.
pub open spec fn cmd_exists_command_text(cmd: Seq<char>) -> Seq<char> {
    "command -v "@ + shell_quoted(cmd) + " >/dev/null 2>&1"@
}

/// The command that tells whether a program is installed.
pub fn cmd_exists_command(cmd: &str) -> (r: String)
    ensures
        r@ == cmd_exists_command_text(cmd@),
{
    let mut s = owned("command -v ");
    push_str(&mut s, shell_escape(cmd).as_str());
    push_str(&mut s, " >/dev/null 2>&1");
    s
}

/// The command that installs a missing package.
pub open spec fn pkg_install_command_text(pkg: Seq<char>) -> Seq<char> {
    "dnf install -y --setopt=logdir=/tmp "@ + shell_quoted(pkg) + " 2>&1 | tail -3"@
}

/// The command that installs a missing package.
pub fn pkg_install_command(pkg: &str) -> (r: String)
    ensures
        r@ == pkg_install_command_text(pkg@),
{
    let mut s = owned("dnf install -y --setopt=logdir=/tmp ");
    push_str(&mut s, shell_escape(pkg).as_str());
    push_str(&mut s, " 2>&1 | tail -3");
    s
}

/// The script that installs fail2ban.
pub open spec fn f2b_install_script_text() -> Seq<char> {
    "dnf install -y epel-release 2>/dev/null; dnf install -y fail2ban fail2ban-systemd 2>&1; systemctl enable fail2ban; systemctl start fail2ban; fail2ban-client status 2>&1"@
}

/// The background command that installs fail2ban, logging to `log`.
pub open spec fn f2b_install_command_text(log: Seq<char>) -> Seq<char> {
    "nohup bash -c "@ + shell_quoted(f2b_install_script_text()) + " > "@ + shell_quoted(log)
        + " 2>&1 &"@
}

/// The background command that installs fail2ban, logging to `log`.
pub fn f2b_install_command(log: &str) -> (r: String)
    ensures
        r@ == f2b_install_command_text(log@),
{
    let script: &str = "dnf install -y epel-release 2>/dev/null; dnf install -y fail2ban fail2ban-systemd 2>&1; systemctl enable fail2ban; systemctl start fail2ban; fail2ban-client status 2>&1";
    let mut s = owned("nohup bash -c ");
    push_str(&mut s, shell_escape(script).as_str());
    push_str(&mut s, " > ");
    push_str(&mut s, shell_escape(log).as_str());
    push_str(&mut s, " 2>&1 &");
    assert(s@ =~= f2b_install_command_text(log@));
    s
}

/// The first line of the install script the panel serves.
pub open spec fn installer_banner_text(https: bool, host: Seq<char>) -> Seq<char> {
    "# NITPANEL one-line installer  (served by "@ + (if https {
        "https"@
    } else {
        "http"@
    }) + "://"@ + host + ")\n"@
}

/// The first line of the install script the panel serves.
pub fn installer_banner(https: bool, host: &str) -> (r: String)
    ensures
        r@ == installer_banner_text(https, host@),
{
    let mut s = owned("# NITPANEL one-line installer  (served by ");
    push_str(&mut s, if https { "https" } else { "http" });
    push_str(&mut s, "://");
    push_str(&mut s, host);
    push_str(&mut s, ")\n");
    assert(s@ =~= installer_banner_text(https, host@));
    s
}

/// Where the install script can be fetched, and the command that runs it.
pub struct ShareLinks {
    pub url_ip: String,
    pub url_host: String,
    pub command_ip: String,
    pub command_host: String,
}

/// The install script's addresses, by IP on the panel's port and by host
/// name, and the commands that run it.
pub fn share_links(ip: &str, host: &str) -> (r: ShareLinks)
    ensures
        r.url_ip@ == "http://"@ + ip@ + ":8765/install.sh"@,
        r.url_host@ == "http://"@ + host@ + "/install.sh"@,
        r.command_ip@ == "curl -fsSL http://"@ + ip@ + ":8765/install.sh | sudo bash"@,
        r.command_host@ == "curl -fsSL http://"@ + host@ + "/install.sh | sudo bash"@,
{
    let mut a = owned("http://");
    push_str(&mut a, ip);
    push_str(&mut a, ":8765/install.sh");
    let mut b = owned("http://");
    push_str(&mut b, host);
    push_str(&mut b, "/install.sh");
    let mut c = owned("curl -fsSL http://");
    push_str(&mut c, ip);
    push_str(&mut c, ":8765/install.sh | sudo bash");
    let mut d = owned("curl -fsSL http://");
    push_str(&mut d, host);
    push_str(&mut d, "/install.sh | sudo bash");
    assert(a@ =~= "http://"@ + ip@ + ":8765/install.sh"@);
    assert(b@ =~= "http://"@ + host@ + "/install.sh"@);
    assert(c@ =~= "curl -fsSL http://"@ + ip@ + ":8765/install.sh | sudo bash"@);
    assert(d@ =~= "curl -fsSL http://"@ + host@ + "/install.sh | sudo bash"@);
    ShareLinks { url_ip: a, url_host: b, command_ip: c, command_host: d }
}

} // verus!
