//! Input validation: what the panel accepts as a domain, a relative path,
//! an IP entry, an SQL identifier, a database password or an e-mail address.
use vstd::prelude::*;
use crate::text::{
    all_chars, ascii_alnum, ascii_alpha, byte_len, byte_length, chars_of, contains_char, contains_seq,
    has_sub, in_set, is_ascii_alnum, is_ascii_alpha, one_of,
};

verus! {

pub open spec fn domain_char(c: char) -> bool {
    is_ascii_alnum(c) || c == '.' || c == '-'
}

pub open spec fn ip_char(c: char) -> bool {
    is_ascii_alnum(c) || one_of(c, ".:/-"@)
}

pub open spec fn ident_char(c: char) -> bool {
    is_ascii_alnum(c) || c == '_'
}

pub open spec fn db_password_char(c: char) -> bool {
    is_ascii_alnum(c) || one_of(c, "._-+!@#%^*=?"@)
}

pub open spec fn email_char(c: char) -> bool {
    is_ascii_alnum(c) || one_of(c, "@._-+"@)
}

pub open spec fn dot_dot() -> Seq<char> {
    seq!['.', '.']
}

/// A host name: 1..=253 bytes of ASCII letters, digits, `.` and `-`, with at
/// least one dot, no empty label and no `.`/`-` at either end.
pub open spec fn domain_ok(d: Seq<char>) -> bool {
    &&& d.len() > 0
    &&& byte_len(d) <= 253
    &&& all_chars(d, |c: char| domain_char(c))
    &&& d[0] != '.'
    &&& d.last() != '.'
    &&& d[0] != '-'
    &&& d.last() != '-'
    &&& !has_sub(d, dot_dot())
    &&& d.contains('.')
}

/// A path below a web root: no `..`, NUL, line breaks or backslashes.
pub open spec fn path_ok(p: Seq<char>) -> bool {
    &&& !has_sub(p, dot_dot())
    &&& !p.contains('\0')
    &&& !p.contains('\n')
    &&& !p.contains('\r')
    &&& !p.contains('\\')
}

/// An IP address or CIDR entry: 1..=50 bytes of ASCII letters, digits and
/// `.:/-`, without `..`.
pub open spec fn ip_ok(ip: Seq<char>) -> bool {
    &&& ip.len() > 0
    &&& byte_len(ip) <= 50
    &&& all_chars(ip, |c: char| ip_char(c))
    &&& !has_sub(ip, dot_dot())
}

/// An SQL identifier: 1..=48 bytes of ASCII letters, digits and `_`, not
/// starting with a digit.
pub open spec fn ident_ok(s: Seq<char>) -> bool {
    &&& s.len() > 0
    &&& byte_len(s) <= 48
    &&& all_chars(s, |c: char| ident_char(c))
    &&& (is_ascii_alpha(s[0]) || s[0] == '_')
}

/// A database password: 12..=64 bytes of ASCII letters, digits and
/// `._-+!@#%^*=?`.
pub open spec fn db_password_ok(s: Seq<char>) -> bool {
    &&& s.len() > 0
    &&& 12 <= byte_len(s) <= 64
    &&& all_chars(s, |c: char| db_password_char(c))
}

/// An e-mail address as the panel accepts it.
pub open spec fn email_ok(e: Seq<char>) -> bool {
    &&& e.len() > 0
    &&& byte_len(e) <= 254
    &&& e.contains('@')
    &&& e.contains('.')
    &&& all_chars(e, |c: char| email_char(c))
    &&& e[0] != '@'
    &&& e.last() != '@'
}

fn all_domain_chars(v: &Vec<char>) -> (r: bool)
    ensures
        r == all_chars(v@, |c: char| domain_char(c)),
{
    let mut i: usize = 0;
    while i < v.len()
        invariant
            i <= v.len(),
            forall|k: int| 0 <= k < i ==> domain_char(#[trigger] v@[k]),
        decreases v.len() - i,
    {
        let c = v[i];
        if !(ascii_alnum(c) || c == '.' || c == '-') {
            assert(!(|c: char| domain_char(c))(v@[i as int]));
            return false;
        }
        i += 1;
    }
    true
}

fn all_ip_chars(v: &Vec<char>) -> (r: bool)
    ensures
        r == all_chars(v@, |c: char| ip_char(c)),
{
    let mut i: usize = 0;
    while i < v.len()
        invariant
            i <= v.len(),
            forall|k: int| 0 <= k < i ==> ip_char(#[trigger] v@[k]),
        decreases v.len() - i,
    {
        let c = v[i];
        if !(ascii_alnum(c) || in_set(c, ".:/-")) {
            assert(!(|c: char| ip_char(c))(v@[i as int]));
            return false;
        }
        i += 1;
    }
    true
}

fn all_ident_chars(v: &Vec<char>) -> (r: bool)
    ensures
        r == all_chars(v@, |c: char| ident_char(c)),
{
    let mut i: usize = 0;
    while i < v.len()
        invariant
            i <= v.len(),
            forall|k: int| 0 <= k < i ==> ident_char(#[trigger] v@[k]),
        decreases v.len() - i,
    {
        let c = v[i];
        if !(ascii_alnum(c) || c == '_') {
            assert(!(|c: char| ident_char(c))(v@[i as int]));
            return false;
        }
        i += 1;
    }
    true
}

fn all_db_password_chars(v: &Vec<char>) -> (r: bool)
    ensures
        r == all_chars(v@, |c: char| db_password_char(c)),
{
    let mut i: usize = 0;
    while i < v.len()
        invariant
            i <= v.len(),
            forall|k: int| 0 <= k < i ==> db_password_char(#[trigger] v@[k]),
        decreases v.len() - i,
    {
        let c = v[i];
        if !(ascii_alnum(c) || in_set(c, "._-+!@#%^*=?")) {
            assert(!(|c: char| db_password_char(c))(v@[i as int]));
            return false;
        }
        i += 1;
    }
    true
}

fn all_email_chars(v: &Vec<char>) -> (r: bool)
    ensures
        r == all_chars(v@, |c: char| email_char(c)),
{
    let mut i: usize = 0;
    while i < v.len()
        invariant
            i <= v.len(),
            forall|k: int| 0 <= k < i ==> email_char(#[trigger] v@[k]),
        decreases v.len() - i,
    {
        let c = v[i];
        if !(ascii_alnum(c) || in_set(c, "@._-+")) {
            assert(!(|c: char| email_char(c))(v@[i as int]));
            return false;
        }
        i += 1;
    }
    true
}

fn has_dot_dot(v: &Vec<char>) -> (r: bool)
    ensures
        r == has_sub(v@, dot_dot()),
{
    let pat = vec!['.', '.'];
    assert(pat@ =~= dot_dot());
    contains_seq(v, &pat)
}

/// Whether `d` is an acceptable domain name.
pub fn valid_domain(d: &str) -> (r: bool)
    ensures
        r == domain_ok(d@),
{
    let v = chars_of(d);
    if v.len() == 0 || byte_length(d) > 253 {
        return false;
    }
    all_domain_chars(&v) && v[0] != '.' && v[v.len() - 1] != '.' && v[0] != '-' && v[v.len()
        - 1] != '-' && !has_dot_dot(&v) && contains_char(&v, '.')
}

/// Whether `p` is an acceptable path below a web root.
pub fn valid_path(p: &str) -> (r: bool)
    ensures
        r == path_ok(p@),
{
    let v = chars_of(p);
    !has_dot_dot(&v) && !contains_char(&v, '\0') && !contains_char(&v, '\n') && !contains_char(
        &v,
        '\r',
    ) && !contains_char(&v, '\\')
}

/// Whether `ip` is an acceptable IP / CIDR entry.
pub fn valid_ip(ip: &str) -> (r: bool)
    ensures
        r == ip_ok(ip@),
{
    let v = chars_of(ip);
    v.len() > 0 && byte_length(ip) <= 50 && all_ip_chars(&v) && !has_dot_dot(&v)
}

/// Whether `s` is an acceptable database name or user.
pub fn valid_ident(s: &str) -> (r: bool)
    ensures
        r == ident_ok(s@),
{
    let v = chars_of(s);
    v.len() > 0 && byte_length(s) <= 48 && all_ident_chars(&v) && (ascii_alpha(v[0]) || v[0]
        == '_')
}

/// Whether `s` is an acceptable database password.
pub fn valid_db_password(s: &str) -> (r: bool)
    ensures
        r == db_password_ok(s@),
{
    let v = chars_of(s);
    let n = byte_length(s);
    v.len() > 0 && n >= 12 && n <= 64 && all_db_password_chars(&v)
}

/// Whether `e` is an acceptable e-mail address.
pub fn valid_email(e: &str) -> (r: bool)
    ensures
        r == email_ok(e@),
{
    let v = chars_of(e);
    v.len() > 0 && byte_length(e) <= 254 && contains_char(&v, '@') && contains_char(&v, '.')
        && all_email_chars(&v) && v[0] != '@' && v[v.len() - 1] != '@'
}

} // verus!
