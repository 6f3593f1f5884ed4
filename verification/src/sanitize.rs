//! Turning untrusted text into safe identifiers, file names, shell words and
//! error messages.
use vstd::prelude::*;
use crate::text::{
    all_chars, ascii_alnum, ascii_alpha, ascii_only, byte_len, chars_of, is_ascii_alnum,
    is_ascii_alpha, is_ascii_digit, keep, lemma_ascii_byte_len, lemma_keep_all, one_of, in_set,
    prefix_upto, push_char, replace_all, replace_char, starts_with, string_of, trim, trim_vec,
    matches_at, occurs_at, has_sub, contains_seq, trim_start, trim_end,
};
use crate::validate::{ident_char, ident_ok};

verus! {

// ───────────────────────── version tags ─────────────────────────

/// `v` without its dots: "8.4" becomes "84".
pub open spec fn no_dots(v: Seq<char>) -> Seq<char> {
    keep(v, |c: char| c != '.')
}

/// The compact form of a PHP version used in package and socket names.
pub fn vn(v: &str) -> (r: String)
    ensures
        r@ == no_dots(v@),
{
    let s = chars_of(v);
    let mut out: Vec<char> = Vec::new();
    let mut i: usize = 0;
    while i < s.len()
        invariant
            i <= s.len(),
            s@ == v@,
            out@ == no_dots(s@.take(i as int)),
        decreases s.len() - i,
    {
        assert(s@.take(i + 1).drop_last() =~= s@.take(i as int));
        if s[i] != '.' {
            out.push(s[i]);
        }
        i += 1;
    }
    assert(s@.take(s.len() as int) =~= s@);
    string_of(&out)
}

// ───────────────────────── SQL identifiers ─────────────────────────

/// The identifier made from `s`: its letters, digits and underscores, at most
/// 48 characters in all, with `_` put in front when it would start with a
/// digit (then only 47 of them are kept), and `x` when nothing is left.
pub open spec fn ident_of(s: Seq<char>) -> Seq<char> {
    let f = prefix_upto(keep(s, |c: char| ident_char(c)), 48);
    if f.len() == 0 {
        seq!['x']
    } else if !(is_ascii_alpha(f[0]) || f[0] == '_') {
        seq!['_'] + prefix_upto(f, 47)
    } else {
        f
    }
}

/// Makes a database name or user out of arbitrary text.
pub fn sanitize_ident(s: &str) -> (r: String)
    ensures
        r@ == ident_of(s@),
{
    let v = chars_of(s);
    let ghost p = |c: char| ident_char(c);
    let mut out: Vec<char> = Vec::new();
    let mut i: usize = 0;
    while i < v.len()
        invariant
            i <= v.len(),
            v@ == s@,
            p == (|c: char| ident_char(c)),
            out@ == prefix_upto(keep(v@.take(i as int), p), 48),
        decreases v.len() - i,
    {
        let c = v[i];
        let ghost before = keep(v@.take(i as int), p);
        assert(v@.take(i + 1).drop_last() =~= v@.take(i as int));
        assert(v@.take(i + 1).last() == c);
        if ascii_alnum(c) || c == '_' {
            assert(keep(v@.take(i + 1), p) == before.push(c));
            if out.len() < 48 {
                assert(before.len() < 48);
                assert(out@ == before);
                out.push(c);
                assert(out@ =~= prefix_upto(before.push(c), 48));
            } else {
                assert(before.push(c).take(48) =~= before.take(48));
            }
        } else {
            assert(keep(v@.take(i + 1), p) == before);
        }
        i += 1;
    }
    assert(v@.take(v.len() as int) =~= v@);
    if out.len() == 0 {
        let mut x: Vec<char> = Vec::new();
        x.push('x');
        assert(x@ =~= seq!['x']);
        return string_of(&x);
    }
    if !(ascii_alpha(out[0]) || out[0] == '_') {
        let mut w: Vec<char> = Vec::new();
        w.push('_');
        let bound: usize = if out.len() > 47 { 47 } else { out.len() };
        let mut j: usize = 0;
        while j < bound
            invariant
                j <= bound <= out.len(),
                w@ == seq!['_'] + out@.take(j as int),
            decreases bound - j,
        {
            w.push(out[j]);
            assert(out@.take(j + 1) =~= out@.take(j as int).push(out@[j as int]));
            j += 1;
        }
        assert(out@.take(bound as int) =~= prefix_upto(out@, 47));
        return string_of(&w);
    }
    string_of(&out)
}

/// The identifier made by `sanitize_ident` is always a valid identifier.
pub proof fn sanitize_ident_is_valid(s: Seq<char>)
    ensures
        ident_ok(ident_of(s)),
{
    let k = keep(s, |c: char| ident_char(c));
    lemma_keep_all(s, |c: char| ident_char(c));
    let f = prefix_upto(k, 48);
    let r = ident_of(s);
    assert(all_chars(f, |c: char| ident_char(c))) by {
        assert forall|i: int| 0 <= i < f.len() implies #[trigger] ident_char(f[i]) by {
            assert(f[i] == k[i]);
            assert((|c: char| ident_char(c))(k[i]));
        }
    }
    assert(all_chars(r, |c: char| ident_char(c))) by {
        assert forall|i: int| 0 <= i < r.len() implies ident_char(#[trigger] r[i]) by {
            if f.len() == 0 {
            } else if !(is_ascii_alpha(f[0]) || f[0] == '_') {
                if i > 0 {
                    assert(r[i] == prefix_upto(f, 47)[i - 1]);
                    assert(r[i] == f[i - 1]);
                    assert((|c: char| ident_char(c))(f[i - 1]));
                }
            } else {
                assert((|c: char| ident_char(c))(f[i]));
            }
        }
    }
    assert(ascii_only(r)) by {
        assert forall|i: int| 0 <= i < r.len() implies '\0' <= #[trigger] r[i] <= '\u{7f}' by {
            assert((|c: char| ident_char(c))(r[i]));
        }
    }
    lemma_ascii_byte_len(r);
    if f.len() > 0 && !(is_ascii_alpha(f[0]) || f[0] == '_') {
        assert(prefix_upto(f, 47).len() <= 47);
    }
}

// ───────────────────────── shell words ─────────────────────────

/// What a single quote turns into inside a single-quoted shell word: close
/// the quote, a double-quoted quote, reopen.
pub open spec fn quote_escape() -> Seq<char> {
    seq!['\'', '"', '\'', '"', '\'']
}

/// `s` as one single-quoted POSIX shell word.
pub open spec fn shell_quoted(s: Seq<char>) -> Seq<char> {
    seq!['\''] + replace_char(s, '\'', quote_escape()) + seq!['\'']
}

/// Quotes `s` for a shell command line.
pub fn shell_escape(s: &str) -> (r: String)
    ensures
        r@ == shell_quoted(s@),
{
    let v = chars_of(s);
    let mut out: Vec<char> = Vec::new();
    out.push('\'');
    let mut i: usize = 0;
    while i < v.len()
        invariant
            i <= v.len(),
            v@ == s@,
            out@ == seq!['\''] + replace_char(v@.take(i as int), '\'', quote_escape()),
        decreases v.len() - i,
    {
        let c = v[i];
        assert(v@.take(i + 1).drop_last() =~= v@.take(i as int));
        if c == '\'' {
            out.push('\'');
            out.push('"');
            out.push('\'');
            out.push('"');
            out.push('\'');
        } else {
            out.push(c);
        }
        assert(out@ =~= seq!['\''] + replace_char(v@.take(i + 1), '\'', quote_escape()));
        i += 1;
    }
    out.push('\'');
    assert(v@.take(v.len() as int) =~= v@);
    assert(out@ =~= shell_quoted(s@));
    string_of(&out)
}

/// How a POSIX shell reads a word made only of quoted spans, between spans.
/// `None` when the word has anything else in it.
pub open spec fn sh_outside(w: Seq<char>) -> Option<Seq<char>>
    decreases w.len(),
{
    if w.len() == 0 {
        Some(Seq::empty())
    } else if w[0] == '\'' {
        sh_single(w.drop_first())
    } else if w[0] == '"' {
        sh_double(w.drop_first())
    } else {
        None
    }
}

/// Inside single quotes every character stands for itself.
pub open spec fn sh_single(w: Seq<char>) -> Option<Seq<char>>
    decreases w.len(),
{
    if w.len() == 0 {
        None
    } else if w[0] == '\'' {
        sh_outside(w.drop_first())
    } else {
        match sh_single(w.drop_first()) {
            Some(r) => Some(seq![w[0]] + r),
            None => None,
        }
    }
}

/// Inside double quotes every character but `\`, `$` and backquote stands for
/// itself (those three are left out of this reader).
pub open spec fn sh_double(w: Seq<char>) -> Option<Seq<char>>
    decreases w.len(),
{
    if w.len() == 0 {
        None
    } else if w[0] == '"' {
        sh_outside(w.drop_first())
    } else if w[0] == '\\' || w[0] == '$' || w[0] == '`' {
        None
    } else {
        match sh_double(w.drop_first()) {
            Some(r) => Some(seq![w[0]] + r),
            None => None,
        }
    }
}

proof fn lemma_replace_char_front(c: char, t: Seq<char>, x: char, rep: Seq<char>)
    ensures
        replace_char(seq![c] + t, x, rep) == (if c == x {
            rep
        } else {
            seq![c]
        }) + replace_char(t, x, rep),
    decreases t.len(),
{
    let s = seq![c] + t;
    if t.len() == 0 {
        assert(s.drop_last() =~= Seq::<char>::empty());
        assert(replace_char(Seq::<char>::empty(), x, rep) =~= Seq::<char>::empty());
        if c == x {
            assert(replace_char(s, x, rep) =~= rep);
        } else {
            assert(replace_char(s, x, rep) =~= seq![c]);
        }
        assert(t =~= Seq::<char>::empty());
    } else {
        lemma_replace_char_front(c, t.drop_last(), x, rep);
        assert(s.drop_last() =~= seq![c] + t.drop_last());
        assert(s.last() == t.last());
    }
}

proof fn lemma_single_reads_escaped(s: Seq<char>)
    ensures
        sh_single(replace_char(s, '\'', quote_escape()) + seq!['\'']) == Some(s),
    decreases s.len(),
{
    let q = quote_escape();
    if s.len() == 0 {
        assert(replace_char(s, '\'', q) =~= Seq::<char>::empty());
        let w = replace_char(s, '\'', q) + seq!['\''];
        assert(w =~= seq!['\'']);
        assert(w.drop_first() =~= Seq::<char>::empty());
        assert(sh_outside(w.drop_first()) == Some(Seq::<char>::empty()));
        assert(s =~= Seq::<char>::empty());
    } else {
        let c = s[0];
        let t = s.drop_first();
        assert(s =~= seq![c] + t);
        lemma_replace_char_front(c, t, '\'', q);
        lemma_single_reads_escaped(t);
        let rest = replace_char(t, '\'', q) + seq!['\''];
        if c == '\'' {
            let w = q + rest;
            assert(replace_char(s, '\'', q) + seq!['\''] =~= w);
            assert(w[0] == '\'');
            let w1 = w.drop_first();
            assert(w1 =~= seq!['"', '\'', '"', '\''] + rest);
            let w2 = w1.drop_first();
            assert(w2 =~= seq!['\'', '"', '\''] + rest);
            let w3 = w2.drop_first();
            assert(w3 =~= seq!['"', '\''] + rest);
            let w4 = w3.drop_first();
            assert(w4 =~= seq!['\''] + rest);
            let w5 = w4.drop_first();
            assert(w5 =~= rest);
            assert(sh_outside(w4) == sh_single(w5));
            assert(sh_double(w3) == sh_outside(w4));
            assert(sh_double(w2) == Some(seq!['\''] + t));
            assert(sh_outside(w1) == sh_double(w2));
            assert(sh_single(w) == sh_outside(w1));
            assert(seq!['\''] + t =~= s);
        } else {
            let w = seq![c] + rest;
            assert(replace_char(s, '\'', q) + seq!['\''] =~= w);
            assert(w.drop_first() =~= rest);
        }
    }
}

/// A shell reads back exactly `s` from `shell_escape(s)`: the quoted word is
/// one word made only of quoted spans, so nothing in it is expanded.
pub proof fn shell_escape_reads_back(s: Seq<char>)
    ensures
        sh_outside(shell_quoted(s)) == Some(s),
{
    lemma_single_reads_escaped(s);
    let w = shell_quoted(s);
    assert(w.drop_first() =~= replace_char(s, '\'', quote_escape()) + seq!['\'']);
}

// ───────────────────────── error messages ─────────────────────────

/// Replaces every occurrence of `pat` in `s` by `rep`.
pub fn replace_seq(s: &Vec<char>, pat: &Vec<char>, rep: &Vec<char>) -> (r: Vec<char>)
    requires
        pat.len() > 0,
    ensures
        r@ == replace_all(s@, pat@, rep@),
{
    let mut out: Vec<char> = Vec::new();
    let mut i: usize = 0;
    assert(s@.skip(0) =~= s@);
    while i < s.len()
        invariant
            i <= s.len(),
            pat.len() > 0,
            out@ + replace_all(s@.skip(i as int), pat@, rep@) == replace_all(s@, pat@, rep@),
        decreases s.len() - i,
    {
        let ghost rest = s@.skip(i as int);
        if matches_at(s, i, pat) {
            assert(rest.subrange(0, pat@.len() as int) =~= s@.subrange(i as int, i + pat@.len()));
            assert(starts_with(rest, pat@));
            assert(rest.skip(pat@.len() as int) =~= s@.skip(i + pat@.len()));
            let mut j: usize = 0;
            let ghost out0 = out@;
            while j < rep.len()
                invariant
                    j <= rep.len(),
                    out@ == out0 + rep@.take(j as int),
                decreases rep.len() - j,
            {
                out.push(rep[j]);
                assert(rep@.take(j + 1) =~= rep@.take(j as int).push(rep@[j as int]));
                j += 1;
            }
            assert(rep@.take(rep.len() as int) =~= rep@);
            assert(out@ + replace_all(s@.skip(i + pat@.len()), pat@, rep@) =~= out0 + (rep@
                + replace_all(rest.skip(pat@.len() as int), pat@, rep@)));
            i = i + pat.len();
        } else {
            assert(!starts_with(rest, pat@)) by {
                if starts_with(rest, pat@) {
                    assert(rest.subrange(0, pat@.len() as int) =~= s@.subrange(
                        i as int,
                        i + pat@.len(),
                    ));
                }
            }
            assert(rest.drop_first() =~= s@.skip(i + 1));
            let ghost out0 = out@;
            out.push(s[i]);
            assert(out@ + replace_all(s@.skip(i + 1), pat@, rep@) =~= out0 + (seq![rest[0]]
                + replace_all(rest.drop_first(), pat@, rep@)));
            i += 1;
        }
    }
    assert(s@.skip(i as int) =~= Seq::<char>::empty());
    assert(out@ + Seq::<char>::empty() =~= out@);
    out
}

/// The message with the panel's well-known directories replaced by labels,
/// one directory after another.
pub open spec fn scrubbed(m: Seq<char>) -> Seq<char> {
    let a = replace_all(m, "/var/www/"@, "[webroot]/"@);
    let b = replace_all(a, "/etc/nginx/conf.d/"@, "[nginx]/"@);
    let c = replace_all(b, "/etc/nitpanel/"@, "[config]/"@);
    let d = replace_all(c, "/var/log/nitpanel/"@, "[logs]/"@);
    replace_all(d, "/tmp/nitpanel_"@, "[tmp]/"@)
}

/// None of the panel's well-known directories occurs in `m`.
pub open spec fn scrub_clean(m: Seq<char>) -> bool {
    &&& !has_sub(m, "/var/www/"@)
    &&& !has_sub(m, "/etc/nginx/conf.d/"@)
    &&& !has_sub(m, "/etc/nitpanel/"@)
    &&& !has_sub(m, "/var/log/nitpanel/"@)
    &&& !has_sub(m, "/tmp/nitpanel_"@)
}

/// How many `/` characters `s` holds.
pub open spec fn slashes(s: Seq<char>) -> nat
    decreases s.len(),
{
    if s.len() == 0 {
        0
    } else {
        (if s[0] == '/' {
            1nat
        } else {
            0nat
        }) + slashes(s.drop_first())
    }
}

/// The message with the replacements repeated until none of the
/// directories is left (each round removes slashes, so this ends).
pub open spec fn scrubbed_fully(m: Seq<char>) -> Seq<char>
    decreases slashes(m),
{
    if scrub_clean(m) {
        m
    } else {
        proof {
            lemma_scrub_shrinks(m);
        }
        scrubbed_fully(scrubbed(m))
    }
}

pub proof fn lemma_slashes_concat(a: Seq<char>, b: Seq<char>)
    ensures
        slashes(a + b) == slashes(a) + slashes(b),
    decreases a.len(),
{
    if a.len() == 0 {
        assert(a + b =~= b);
    } else {
        assert((a + b).drop_first() =~= a.drop_first() + b);
        lemma_slashes_concat(a.drop_first(), b);
    }
}

/// Replacing `pat` by a text with fewer slashes never adds slashes, and
/// removes some when `pat` occurs.
pub proof fn lemma_replace_slashes(s: Seq<char>, pat: Seq<char>, rep: Seq<char>)
    requires
        pat.len() > 0,
        slashes(rep) < slashes(pat),
    ensures
        slashes(replace_all(s, pat, rep)) <= slashes(s),
        has_sub(s, pat) ==> slashes(replace_all(s, pat, rep)) < slashes(s),
    decreases s.len(),
{
    if s.len() == 0 {
        if has_sub(s, pat) {
            let i = choose|i: int| occurs_at(s, pat, i);
        }
    } else if starts_with(s, pat) {
        let t = s.skip(pat.len() as int);
        lemma_replace_slashes(t, pat, rep);
        lemma_slashes_concat(rep, replace_all(t, pat, rep));
        assert(s =~= pat + t) by {
            assert(s.subrange(0, pat.len() as int) == pat);
        }
        lemma_slashes_concat(pat, t);
    } else {
        let t = s.drop_first();
        lemma_replace_slashes(t, pat, rep);
        lemma_slashes_concat(seq![s[0]], replace_all(t, pat, rep));
        assert(s =~= seq![s[0]] + t);
        lemma_slashes_concat(seq![s[0]], t);
        if has_sub(s, pat) {
            let i = choose|i: int| occurs_at(s, pat, i);
            assert(i != 0);
            assert(t.subrange(i - 1, i - 1 + pat.len()) =~= s.subrange(i, i + pat.len()));
            assert(occurs_at(t, pat, i - 1));
        }
    }
}

/// Replacing a text that does not occur changes nothing.
pub proof fn lemma_replace_absent(s: Seq<char>, pat: Seq<char>, rep: Seq<char>)
    requires
        pat.len() > 0,
        !has_sub(s, pat),
    ensures
        replace_all(s, pat, rep) == s,
    decreases s.len(),
{
    if s.len() > 0 {
        assert(!starts_with(s, pat)) by {
            if starts_with(s, pat) {
                assert(occurs_at(s, pat, 0));
            }
        }
        let t = s.drop_first();
        assert(!has_sub(t, pat)) by {
            if has_sub(t, pat) {
                let i = choose|i: int| occurs_at(t, pat, i);
                assert(s.subrange(i + 1, i + 1 + pat.len()) =~= t.subrange(i, i + pat.len()));
                assert(occurs_at(s, pat, i + 1));
            }
        }
        lemma_replace_absent(t, pat, rep);
        assert(seq![s[0]] + t =~= s);
    }
}

/// A round of replacements removes slashes from a message that still holds
/// one of the directories.
pub proof fn lemma_scrub_shrinks(m: Seq<char>)
    requires
        !scrub_clean(m),
    ensures
        slashes(scrubbed(m)) < slashes(m),
{
    let p1 = "/var/www/"@;
    let p2 = "/etc/nginx/conf.d/"@;
    let p3 = "/etc/nitpanel/"@;
    let p4 = "/var/log/nitpanel/"@;
    let p5 = "/tmp/nitpanel_"@;
    let r1 = "[webroot]/"@;
    let r2 = "[nginx]/"@;
    let r3 = "[config]/"@;
    let r4 = "[logs]/"@;
    let r5 = "[tmp]/"@;
    reveal_strlit("/var/www/");
    reveal_strlit("/etc/nginx/conf.d/");
    reveal_strlit("/etc/nitpanel/");
    reveal_strlit("/var/log/nitpanel/");
    reveal_strlit("/tmp/nitpanel_");
    reveal_strlit("[webroot]/");
    reveal_strlit("[nginx]/");
    reveal_strlit("[config]/");
    reveal_strlit("[logs]/");
    reveal_strlit("[tmp]/");
    reveal_with_fuel(slashes, 20);
    assert(slashes(r1) < slashes(p1));
    assert(slashes(r2) < slashes(p2));
    assert(slashes(r3) < slashes(p3));
    assert(slashes(r4) < slashes(p4));
    assert(slashes(r5) < slashes(p5));
    let a = replace_all(m, p1, r1);
    let b = replace_all(a, p2, r2);
    let c = replace_all(b, p3, r3);
    let d = replace_all(c, p4, r4);
    lemma_replace_slashes(m, p1, r1);
    lemma_replace_slashes(a, p2, r2);
    lemma_replace_slashes(b, p3, r3);
    lemma_replace_slashes(c, p4, r4);
    lemma_replace_slashes(d, p5, r5);
    if !has_sub(m, p1) {
        lemma_replace_absent(m, p1, r1);
        if !has_sub(m, p2) {
            lemma_replace_absent(m, p2, r2);
            if !has_sub(m, p3) {
                lemma_replace_absent(m, p3, r3);
                if !has_sub(m, p4) {
                    lemma_replace_absent(m, p4, r4);
                }
            }
        }
    }
}

fn replace_lit(s: &Vec<char>, pat: &str, rep: &str) -> (r: Vec<char>)
    requires
        pat@.len() > 0,
    ensures
        r@ == replace_all(s@, pat@, rep@),
{
    let p = chars_of(pat);
    let q = chars_of(rep);
    replace_seq(s, &p, &q)
}

fn holds_lit(s: &Vec<char>, pat: &str) -> (r: bool)
    ensures
        r == has_sub(s@, pat@),
{
    let p = chars_of(pat);
    contains_seq(s, &p)
}

/// One round of replacements.
fn scrub_round(s: &Vec<char>) -> (r: Vec<char>)
    ensures
        r@ == scrubbed(s@),
{
    proof {
        reveal_strlit("/var/www/");
        reveal_strlit("/etc/nginx/conf.d/");
        reveal_strlit("/etc/nitpanel/");
        reveal_strlit("/var/log/nitpanel/");
        reveal_strlit("/tmp/nitpanel_");
    }
    let a = replace_lit(s, "/var/www/", "[webroot]/");
    let b = replace_lit(&a, "/etc/nginx/conf.d/", "[nginx]/");
    let c = replace_lit(&b, "/etc/nitpanel/", "[config]/");
    let d = replace_lit(&c, "/var/log/nitpanel/", "[logs]/");
    replace_lit(&d, "/tmp/nitpanel_", "[tmp]/")
}

/// Strips file-system locations from a message before it is shown: each
/// well-known directory becomes its label, and none is left in the result.
pub fn sanitize_error(msg: &str) -> (r: String)
    ensures
        r@ == scrubbed_fully(msg@),
        scrub_clean(r@),
{
    let mut cur = chars_of(msg);
    loop
        invariant
            scrubbed_fully(cur@) == scrubbed_fully(msg@),
        decreases slashes(cur@),
    {
        let dirty = holds_lit(&cur, "/var/www/") || holds_lit(&cur, "/etc/nginx/conf.d/")
            || holds_lit(&cur, "/etc/nitpanel/") || holds_lit(&cur, "/var/log/nitpanel/")
            || holds_lit(&cur, "/tmp/nitpanel_");
        if !dirty {
            return string_of(&cur);
        }
        proof {
            lemma_scrub_shrinks(cur@);
        }
        cur = scrub_round(&cur);
    }
}

// ───────────────────────── file names ─────────────────────────

/// The last component of the path `path`, as `Path::file_name` gives it.
pub uninterp spec fn file_name_of(path: Seq<char>) -> Option<Seq<char>>;

/// `char::is_alphanumeric`.
pub uninterp spec fn char_alphanumeric(c: char) -> bool;

/// Calls `Path::new(p).file_name()` and copies the name into a `String`
/// (lossless here, since it comes from a `str`). The contract names the result
/// and says nothing more of it.
#[verifier::external_body]
pub(crate) fn path_file_name(p: &str) -> (r: Option<String>)
    ensures
        match r {
            Some(n) => file_name_of(p@) == Some(n@),
            None => file_name_of(p@) is None,
        },
{
    std::path::Path::new(p).file_name().map(|n| n.to_string_lossy().to_string())
}

/// Calls `char::is_alphanumeric`. Its documentation defines it as alphabetic
/// or numeric; on ASCII that is exactly the letters and the digits.
#[verifier::external_body]
fn alphanumeric(c: char) -> (r: bool)
    ensures
        r == char_alphanumeric(c),
        (c as u32) < 128 ==> (r == is_ascii_alnum(c)),
{
    c.is_alphanumeric()
}

/// Characters kept in an uploaded file name: alphanumeric ones (every ASCII
/// letter and digit among them) and `._- `.
pub open spec fn file_char(c: char) -> bool {
    is_ascii_alnum(c) || char_alphanumeric(c) || one_of(c, "._- "@)
}

/// The name `base` reduces to: letters, digits and `._- ` only, trimmed.
pub open spec fn clean_name(base: Seq<char>) -> Seq<char> {
    trim(keep(base, |c: char| file_char(c)))
}

/// The name for `name`: its last path component (or `default`), cleaned.
pub open spec fn cleaned_file_name(name: Seq<char>, default: Seq<char>) -> Seq<char> {
    match file_name_of(name) {
        Some(n) => clean_name(n),
        None => clean_name(default),
    }
}

/// Cleans the base name `base`: keeps letters, digits and `._- `, then
/// trims; the result holds no separator, NUL or quote.
pub fn clean_chars(base: &str) -> (r: String)
    ensures
        r@ == clean_name(base@),
        !r@.contains('/'),
        !r@.contains('\\'),
        !r@.contains('\0'),
        !r@.contains('"'),
        !r@.contains('\''),
{
    let v = chars_of(base);
    let ghost p = |c: char| file_char(c);
    let mut out: Vec<char> = Vec::new();
    let mut i: usize = 0;
    while i < v.len()
        invariant
            i <= v.len(),
            v@ == base@,
            p == (|c: char| file_char(c)),
            out@ == keep(v@.take(i as int), p),
            forall|k: int|
                0 <= k < out@.len() ==> {
                    let d = #[trigger] out@[k];
                    d != '/' && d != '\\' && d != '\0' && d != '"' && d != '\''
                },
        decreases v.len() - i,
    {
        let c = v[i];
        assert(v@.take(i + 1).drop_last() =~= v@.take(i as int));
        assert(v@.take(i + 1).last() == c);
        let a = ascii_alnum(c) || alphanumeric(c);
        let s = in_set(c, "._- ");
        if a || s {
            proof {
                reveal_strlit("._- ");
            }
            out.push(c);
        }
        i += 1;
    }
    assert(v@.take(v.len() as int) =~= v@);
    let r = trim_vec(&out);
    proof {
        crate::text::lemma_trim_sub(out@);
    }
    r
}

/// Reduces an uploaded file name to a safe base name.
pub fn sanitize_filename(name: &str) -> (r: String)
    ensures
        r@ == cleaned_file_name(name@, "file"@),
        !r@.contains('/'),
        !r@.contains('\\'),
        !r@.contains('\0'),
{
    match path_file_name(name) {
        Some(n) => clean_chars(n.as_str()),
        None => clean_chars("file"),
    }
}

/// Reduces a requested archive name to a safe base name.
pub fn sanitize_archive_name(name: &str) -> (r: String)
    ensures
        r@ == cleaned_file_name(name@, "archive.zip"@),
        file_name_of(name@) is None ==> r@ == "archive.zip"@,
        !r@.contains('/'),
        !r@.contains('\\'),
        !r@.contains('\0'),
{
    proof {
        lemma_archive_default_clean();
    }
    match path_file_name(name) {
        Some(n) => clean_chars(n.as_str()),
        None => clean_chars("archive.zip"),
    }
}

/// Keeping the characters of `s` that all satisfy `p` gives `s` back.
pub proof fn lemma_keep_every(s: Seq<char>, p: spec_fn(char) -> bool)
    requires
        forall|i: int| 0 <= i < s.len() ==> p(#[trigger] s[i]),
    ensures
        keep(s, p) == s,
    decreases s.len(),
{
    if s.len() > 0 {
        lemma_keep_every(s.drop_last(), p);
        assert(p(s[s.len() - 1]));
        assert(s.drop_last().push(s.last()) =~= s);
    }
}

/// The default archive name is already clean.
pub proof fn lemma_archive_default_clean()
    ensures
        clean_name("archive.zip"@) == "archive.zip"@,
{
    reveal_strlit("archive.zip");
    let s = "archive.zip"@;
    let p = |c: char| file_char(c);
    assert forall|i: int| 0 <= i < s.len() implies p(#[trigger] s[i]) by {
        reveal_strlit("._- ");
        assert("._- "@[0] == '.');
        if i == 7 {
            assert(one_of(s[i], "._- "@));
        } else {
            assert(is_ascii_alnum(s[i]));
        }
    }
    lemma_keep_every(s, p);
    assert(trim_start(s) == s);
    assert(trim_end(s) == s);
}

/// An archive name is cleaned like an uploaded file name when the request
/// names a file, and is `archive.zip` when it names none.
pub proof fn archive_name_law(name: Seq<char>)
    ensures
        cleaned_file_name(name, "archive.zip"@) == (match file_name_of(name) {
            Some(_) => cleaned_file_name(name, "file"@),
            None => "archive.zip"@,
        }),
{
    lemma_archive_default_clean();
}

} // verus!
