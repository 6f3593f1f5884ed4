//! Rules applied to every request: the client address, the Host and address
//! allow-lists, the bearer token, audit lines and command output.
use vstd::prelude::*;
use crate::parse::views;
use crate::text::{
    chars_of, has_sub, owned, push_char, push_str, replace_char, starts_with, string_of, trim,
    trim_vec, contains_seq, matches_at, str_eq,
};

verus! {

// ───────────────────────── splitting ─────────────────────────

/// The pieces of `s` between the separators `c`, the current piece being `cur`.
pub open spec fn split_from(s: Seq<char>, c: char, cur: Seq<char>) -> Seq<Seq<char>>
    decreases s.len(),
{
    if s.len() == 0 {
        seq![cur]
    } else if s[0] == c {
        seq![cur] + split_from(s.drop_first(), c, Seq::empty())
    } else {
        split_from(s.drop_first(), c, cur.push(s[0]))
    }
}

/// What `str::split(c)` yields.
pub open spec fn split_on(s: Seq<char>, c: char) -> Seq<Seq<char>> {
    split_from(s, c, Seq::empty())
}

proof fn lemma_split_nonempty(s: Seq<char>, c: char, cur: Seq<char>)
    ensures
        split_from(s, c, cur).len() > 0,
    decreases s.len(),
{
    if s.len() > 0 && s[0] != c {
        lemma_split_nonempty(s.drop_first(), c, cur.push(s[0]));
    }
}

/// Splits `s` at every `c`.
pub fn split_at_char(s: &str, c: char) -> (r: Vec<String>)
    ensures
        views(r@) == split_on(s@, c),
        r@.len() > 0,
{
    let v = chars_of(s);
    let mut out: Vec<String> = Vec::new();
    let mut cur: Vec<char> = Vec::new();
    let mut i: usize = 0;
    assert(v@.skip(0) =~= v@);
    while i < v.len()
        invariant
            i <= v.len(),
            v@ == s@,
            views(out@) + split_from(v@.skip(i as int), c, cur@) == split_on(s@, c),
        decreases v.len() - i,
    {
        let ghost rest = v@.skip(i as int);
        assert(rest.drop_first() =~= v@.skip(i + 1));
        if v[i] == c {
            let ghost before = out@;
            let piece = string_of(&cur);
            out.push(piece);
            assert(views(out@) =~= views(before).push(piece@));
            assert(views(before).push(piece@) + split_from(v@.skip(i + 1), c, Seq::empty()) =~= views(
                before,
            ) + (seq![piece@] + split_from(v@.skip(i + 1), c, Seq::empty())));
            cur = Vec::new();
        } else {
            cur.push(v[i]);
        }
        i += 1;
    }
    let ghost before = out@;
    let piece = string_of(&cur);
    out.push(piece);
    assert(views(out@) =~= views(before).push(piece@));
    assert(v@.skip(i as int) =~= Seq::<char>::empty());
    assert(views(out@) =~= split_on(s@, c));
    out
}

// ───────────────────────── case ─────────────────────────

pub open spec fn ascii_lower_of(c: char) -> char {
    if 'A' <= c && c <= 'Z' {
        ((c as u32) + 32) as char
    } else {
        c
    }
}

/// `str::eq_ignore_ascii_case`.
pub open spec fn eq_ignore_ascii_case(a: Seq<char>, b: Seq<char>) -> bool {
    a.len() == b.len() && forall|i: int| 0 <= i < a.len() ==> ascii_lower_of(#[trigger] a[i])
        == ascii_lower_of(b[i])
}

fn lower_char(c: char) -> (r: char)
    ensures
        r == ascii_lower_of(c),
{
    if 'A' <= c && c <= 'Z' {
        ((c as u8) + 32) as char
    } else {
        c
    }
}

/// Compares two strings, ignoring ASCII case.
pub fn same_ignoring_ascii_case(a: &str, b: &str) -> (r: bool)
    ensures
        r == eq_ignore_ascii_case(a@, b@),
{
    let x = chars_of(a);
    let y = chars_of(b);
    if x.len() != y.len() {
        return false;
    }
    let mut i: usize = 0;
    while i < x.len()
        invariant
            x@ == a@,
            y@ == b@,
            x.len() == y.len(),
            i <= x.len(),
            forall|k: int| 0 <= k < i ==> ascii_lower_of(#[trigger] x@[k]) == ascii_lower_of(y@[k]),
        decreases x.len() - i,
    {
        if lower_char(x[i]) != lower_char(y[i]) {
            return false;
        }
        i += 1;
    }
    true
}

// ───────────────────────── settings ─────────────────────────

/// Whether `X-Forwarded-For` is trusted, from the setting's value: "1" or
/// "true" in any case; off when unset.
pub fn trust_xff_setting(value: Option<&str>) -> (r: bool)
    ensures
        r == match value {
            Some(v) => v@ == "1"@ || eq_ignore_ascii_case(v@, "true"@),
            None => false,
        },
{
    match value {
        Some(v) => str_eq(v, "1") || same_ignoring_ascii_case(v, "true"),
        None => false,
    }
}

// ───────────────────────── the client address ─────────────────────────

/// The address a request comes from: the first entry of `X-Forwarded-For`
/// when that header is trusted and the entry is not blank, else the peer
/// address, else "unknown".
pub open spec fn client_ip_spec(
    trust: bool,
    forwarded: Option<Seq<char>>,
    peer: Option<Seq<char>>,
) -> Seq<char> {
    let fwd = match forwarded {
        Some(h) => trim(split_on(h, ',')[0]),
        None => Seq::empty(),
    };
    if trust && forwarded is Some && fwd.len() > 0 {
        fwd
    } else {
        match peer {
            Some(p) => p,
            None => "unknown"@,
        }
    }
}

/// The address a request comes from.
pub fn client_ip(trust: bool, forwarded: Option<&str>, peer: Option<&str>) -> (r: String)
    ensures
        r@ == client_ip_spec(
            trust,
            match forwarded {
                Some(h) => Some(h@),
                None => None,
            },
            match peer {
                Some(p) => Some(p@),
                None => None,
            },
        ),
{
    if trust {
        if let Some(h) = forwarded {
            let parts = split_at_char(h, ',');
            assert(views(parts@)[0] == parts@[0]@);
            let first = trim_vec(&chars_of(parts[0].as_str()));
            if !first.as_str().is_empty() {
                return first;
            }
        }
    }
    match peer {
        Some(p) => owned(p),
        None => owned("unknown"),
    }
}

// ───────────────────────── allow-lists ─────────────────────────

/// Whether a comma-separated allow-list admits `item` (compared after
/// trimming, by `same`). An unset or blank list admits everything.
pub open spec fn list_admits(
    list: Option<Seq<char>>,
    item: Seq<char>,
    ignore_case: bool,
) -> bool {
    match list {
        None => true,
        Some(v) => trim(v).len() == 0 || exists|i: int|
            0 <= i < split_on(v, ',').len() && entry_matches(
                #[trigger] split_on(v, ',')[i],
                item,
                ignore_case,
            ),
    }
}

/// Whether a list entry, trimmed, names `item`.
pub open spec fn entry_matches(e: Seq<char>, item: Seq<char>, ignore_case: bool) -> bool {
    if ignore_case {
        eq_ignore_ascii_case(trim(e), item)
    } else {
        trim(e) == item
    }
}

fn admits(list: Option<&str>, item: &str, ignore_case: bool) -> (r: bool)
    ensures
        r == list_admits(
            match list {
                Some(v) => Some(v@),
                None => None,
            },
            item@,
            ignore_case,
        ),
{
    match list {
        None => true,
        Some(v) => {
            let t = crate::text::trim_str(v);
            if t.as_str().is_empty() {
                return true;
            }
            let parts = split_at_char(v, ',');
            let mut i: usize = 0;
            while i < parts.len()
                invariant
                    i <= parts.len(),
                    views(parts@) == split_on(v@, ','),
                    parts@.len() == split_on(v@, ',').len(),
                    list == Some(v),
                    forall|k: int|
                        0 <= k < i ==> !entry_matches(#[trigger] split_on(v@, ',')[k], item@, ignore_case),
                decreases parts.len() - i,
            {
                assert(views(parts@)[i as int] == parts@[i as int]@);
                let e = crate::text::trim_str(parts[i].as_str());
                let hit = if ignore_case {
                    same_ignoring_ascii_case(e.as_str(), item)
                } else {
                    str_eq(e.as_str(), item)
                };
                if hit {
                    assert(views(parts@)[i as int] == split_on(v@, ',')[i as int]);
                    assert(entry_matches(split_on(v@, ',')[i as int], item@, ignore_case));
                    return true;
                }
                i += 1;
            }
            false
        },
    }
}

/// Whether the `Host` header is admitted by the allowed-hosts setting
/// (compared ignoring ASCII case).
pub fn host_allowed(allowed: Option<&str>, host: &str) -> (r: bool)
    ensures
        r == list_admits(
            match allowed {
                Some(v) => Some(v@),
                None => None,
            },
            host@,
            true,
        ),
{
    admits(allowed, host, true)
}

/// Whether the client address is admitted by the allowed-addresses setting.
pub fn allowed_ip(allowed: Option<&str>, ip: &str) -> (r: bool)
    ensures
        r == list_admits(
            match allowed {
                Some(v) => Some(v@),
                None => None,
            },
            ip@,
            false,
        ),
{
    admits(allowed, ip, false)
}

// ───────────────────────── bearer tokens ─────────────────────────

/// `s` with every leading copy of `p` removed (`str::trim_start_matches`).
pub open spec fn strip_leading(s: Seq<char>, p: Seq<char>) -> Seq<char>
    decreases s.len(),
{
    if p.len() > 0 && starts_with(s, p) {
        strip_leading(s.skip(p.len() as int), p)
    } else {
        s
    }
}

/// The token of an `Authorization` header: leading "Bearer " prefixes
/// removed, then trimmed.
pub fn bearer_token(header: &str) -> (r: String)
    ensures
        r@ == trim(strip_leading(header@, "Bearer "@)),
{
    proof {
        reveal_strlit("Bearer ");
    }
    let v = chars_of(header);
    let p = chars_of("Bearer ");
    let mut i: usize = 0;
    assert(v@.skip(0) =~= v@);
    while matches_at(&v, i, &p)
        invariant
            i <= v.len(),
            p@ == "Bearer "@,
            p@.len() == 7,
            strip_leading(v@, p@) == strip_leading(v@.skip(i as int), p@),
        decreases v.len() - i,
    {
        assert(v@.skip(i as int).subrange(0, 7) =~= v@.subrange(i as int, i + 7));
        assert(v@.skip(i as int).skip(7) =~= v@.skip(i + 7));
        i = i + p.len();
    }
    assert(!starts_with(v@.skip(i as int), p@)) by {
        if starts_with(v@.skip(i as int), p@) {
            assert(v@.skip(i as int).subrange(0, 7) =~= v@.subrange(i as int, i + 7));
        }
    }
    let rest = crate::text::string_of_range(&v, i, v.len());
    assert(v@.subrange(i as int, v.len() as int) =~= v@.skip(i as int));
    trim_vec(&chars_of(rest.as_str()))
}

// ───────────────────────── audit log ─────────────────────────

/// One line of the audit log: time, address, action and detail, separated by
/// tabs; line breaks and tabs inside the detail become spaces.
pub open spec fn audit_line_text(ts: Seq<char>, ip: Seq<char>, action: Seq<char>, detail: Seq<char>) -> Seq<char> {
    ts + seq!['\t'] + ip + seq!['\t'] + action + seq!['\t'] + replace_char(
        replace_char(detail, '\n', seq![' ']),
        '\t',
        seq![' '],
    ) + seq!['\n']
}

/// Formats one line of the audit log.
pub fn audit_line(ts: &str, ip: &str, action: &str, detail: &str) -> (r: String)
    ensures
        r@ == audit_line_text(ts@, ip@, action@, detail@),
{
    let d = chars_of(detail);
    let mut clean: Vec<char> = Vec::new();
    let mut i: usize = 0;
    while i < d.len()
        invariant
            i <= d.len(),
            d@ == detail@,
            clean@ == replace_char(replace_char(d@.take(i as int), '\n', seq![' ']), '\t', seq![' ']),
        decreases d.len() - i,
    {
        let c = d[i];
        let ghost t = d@.take(i + 1);
        assert(t.drop_last() =~= d@.take(i as int));
        assert(t.last() == c);
        let ghost a = replace_char(d@.take(i as int), '\n', seq![' ']);
        if c == '\n' || c == '\t' {
            clean.push(' ');
            if c == '\n' {
                assert(replace_char(t, '\n', seq![' ']) == a + seq![' ']);
                assert((a + seq![' ']).drop_last() =~= a);
                assert((a + seq![' ']).last() == ' ');
            } else {
                assert(replace_char(t, '\n', seq![' ']) == a.push('\t'));
                assert(a.push('\t').drop_last() =~= a);
            }
        } else {
            clean.push(c);
            assert(replace_char(t, '\n', seq![' ']) == a.push(c));
            assert(a.push(c).drop_last() =~= a);
        }
        assert(clean@ =~= replace_char(replace_char(t, '\n', seq![' ']), '\t', seq![' ']));
        i += 1;
    }
    assert(d@.take(d.len() as int) =~= d@);
    let mut s = String::new();
    push_str(&mut s, ts);
    push_char(&mut s, '\t');
    push_str(&mut s, ip);
    push_char(&mut s, '\t');
    push_str(&mut s, action);
    push_char(&mut s, '\t');
    push_str(&mut s, string_of(&clean).as_str());
    push_char(&mut s, '\n');
    assert(s@ =~= audit_line_text(ts@, ip@, action@, detail@));
    s
}

/// Whether an authenticated request is worth a log line: status polling
/// and token refreshes are not.
pub fn request_logged(path: &str) -> (r: bool)
    ensures
        r == (!has_sub(path@, "system/info"@) && !has_sub(path@, "csrf-token"@)),
{
    let p = chars_of(path);
    let a = chars_of("system/info");
    let b = chars_of("csrf-token");
    !contains_seq(&p, &a) && !contains_seq(&p, &b)
}

// ───────────────────────── command output ─────────────────────────

/// What a shell command reports: its output when it succeeded, else its
/// output and its error output on two lines; trimmed either way.
pub open spec fn command_report(ok: bool, out: Seq<char>, err: Seq<char>) -> Seq<char> {
    if ok {
        trim(out)
    } else {
        trim(out + seq!['\n'] + err)
    }
}

/// Formats what a shell command reports.
pub fn command_output(ok: bool, out: &str, err: &str) -> (r: String)
    ensures
        r@ == command_report(ok, out@, err@),
{
    if ok {
        crate::text::trim_str(out)
    } else {
        let mut s = String::new();
        push_str(&mut s, out);
        push_char(&mut s, '\n');
        push_str(&mut s, err);
        assert(s@ =~= out@ + seq!['\n'] + err@);
        crate::text::trim_str(s.as_str())
    }
}

} // verus!
