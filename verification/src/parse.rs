//! Reading the small text files and command outputs the panel relies on:
//! credential notes, option files, `certbot` listings and archive listings.
use vstd::prelude::*;
use crate::text::{
    chars_of, has_sub, is_ws, matches_at, occurs_at, starts_with, string_of, string_of_range,
    trim, trim_end, trim_start, trim_vec, whitespace, contains_seq,
};

verus! {

// ───────────────────────── lines ─────────────────────────

/// The line being read is `cur`; what `str::lines` yields from here on.
pub open spec fn lines_from(s: Seq<char>, cur: Seq<char>) -> Seq<Seq<char>>
    decreases s.len(),
{
    if s.len() == 0 {
        if cur.len() == 0 {
            Seq::empty()
        } else {
            seq![cur]
        }
    } else if s[0] == '\n' {
        seq![strip_cr(cur)] + lines_from(s.drop_first(), Seq::empty())
    } else {
        lines_from(s.drop_first(), cur.push(s[0]))
    }
}

/// A line ended by `\r\n` loses its `\r`.
pub open spec fn strip_cr(l: Seq<char>) -> Seq<char> {
    if l.len() > 0 && l.last() == '\r' {
        l.drop_last()
    } else {
        l
    }
}

/// The lines of `s`, as `str::lines` gives them.
pub open spec fn lines(s: Seq<char>) -> Seq<Seq<char>> {
    lines_from(s, Seq::empty())
}

pub open spec fn views(v: Seq<String>) -> Seq<Seq<char>> {
    v.map_values(|x: String| x@)
}

fn strip_cr_vec(cur: &Vec<char>) -> (r: String)
    ensures
        r@ == strip_cr(cur@),
{
    if cur.len() > 0 && cur[cur.len() - 1] == '\r' {
        let r = string_of_range(cur, 0, cur.len() - 1);
        assert(cur@.subrange(0, cur.len() - 1) =~= cur@.drop_last());
        r
    } else {
        string_of(cur)
    }
}

proof fn lemma_views_push(v: Seq<String>, x: String)
    ensures
        views(v.push(x)) == views(v).push(x@),
{
    assert(views(v.push(x)) =~= views(v).push(x@));
}

/// Splits `s` into lines like `str::lines`.
pub fn split_lines(s: &str) -> (r: Vec<String>)
    ensures
        views(r@) == lines(s@),
{
    let v = chars_of(s);
    let mut out: Vec<String> = Vec::new();
    let mut cur: Vec<char> = Vec::new();
    let mut i: usize = 0;
    assert(v@.skip(0) =~= v@);
    while i < v.len()
        invariant
            i <= v.len(),
            v@ == s@,
            views(out@) + lines_from(v@.skip(i as int), cur@) == lines(s@),
        decreases v.len() - i,
    {
        let ghost rest = v@.skip(i as int);
        assert(rest.drop_first() =~= v@.skip(i + 1));
        if v[i] == '\n' {
            let ghost before = out@;
            let line = strip_cr_vec(&cur);
            proof {
                lemma_views_push(before, line);
            }
            out.push(line);
            assert(views(out@) == views(before).push(line@));
            assert(views(before).push(line@) + lines_from(v@.skip(i + 1), Seq::empty()) =~= views(
                before,
            ) + (seq![line@] + lines_from(v@.skip(i + 1), Seq::empty())));
            cur = Vec::new();
        } else {
            cur.push(v[i]);
        }
        i += 1;
    }
    if cur.len() > 0 {
        let ghost before = out@;
        let line = string_of(&cur);
        proof {
            lemma_views_push(before, line);
        }
        out.push(line);
    }
    assert(v@.skip(i as int) =~= Seq::<char>::empty());
    assert(views(out@) =~= lines(s@));
    out
}

// ───────────────────────── "key: value" lines ─────────────────────────

/// The trimmed rest of the last line of `ls` that starts with `p`.
pub open spec fn last_field(ls: Seq<Seq<char>>, p: Seq<char>) -> Option<Seq<char>>
    decreases ls.len(),
{
    if ls.len() == 0 {
        None
    } else if starts_with(ls.last(), p) {
        Some(trim(ls.last().skip(p.len() as int)))
    } else {
        last_field(ls.drop_last(), p)
    }
}

/// The value of a field, empty when it is missing.
pub open spec fn field_or_empty(ls: Seq<Seq<char>>, p: Seq<char>) -> Seq<char> {
    match last_field(ls, p) {
        Some(v) => v,
        None => Seq::empty(),
    }
}

/// If `line` starts with `p`, its trimmed rest.
fn field_value(line: &str, p: &str) -> (r: Option<String>)
    ensures
        match r {
            Some(v) => starts_with(line@, p@) && v@ == trim(line@.skip(p@.len() as int)),
            None => !starts_with(line@, p@),
        },
{
    let l = chars_of(line);
    let q = chars_of(p);
    if matches_at(&l, 0, &q) {
        let rest = string_of_range(&l, q.len(), l.len());
        let rv = chars_of(rest.as_str());
        assert(l@.subrange(q.len() as int, l.len() as int) =~= l@.skip(q@.len() as int));
        Some(trim_vec(&rv))
    } else {
        None
    }
}

/// The value of the last line of `ls` that starts with `p`.
pub fn find_last_field(ls: &Vec<String>, p: &str) -> (r: Option<String>)
    ensures
        match r {
            Some(v) => last_field(views(ls@), p@) == Some(v@),
            None => last_field(views(ls@), p@) is None,
        },
{
    let mut val: Option<String> = None;
    let mut i: usize = 0;
    while i < ls.len()
        invariant
            i <= ls.len(),
            match val {
                Some(v) => last_field(views(ls@).take(i as int), p@) == Some(v@),
                None => last_field(views(ls@).take(i as int), p@) is None,
            },
        decreases ls.len() - i,
    {
        let ghost t = views(ls@).take(i + 1);
        assert(t.drop_last() =~= views(ls@).take(i as int));
        assert(t.last() == ls@[i as int]@);
        match field_value(ls[i].as_str(), p) {
            Some(v) => {
                val = Some(v);
            },
            None => {},
        }
        i += 1;
    }
    assert(views(ls@).take(i as int) =~= views(ls@));
    val
}

fn field_or_blank(ls: &Vec<String>, p: &str) -> (r: String)
    ensures
        r@ == field_or_empty(views(ls@), p@),
{
    match find_last_field(ls, p) {
        Some(v) => v,
        None => String::new(),
    }
}

/// The database credentials noted for a site.
pub struct DbCreds {
    pub database: String,
    pub user: String,
    pub password: String,
}

/// Reads a site's credential note ("Database:", "User:", "Password:" lines;
/// the last of each wins; a missing one reads as empty).
pub fn parse_db_creds(txt: &str) -> (r: DbCreds)
    ensures
        r.database@ == field_or_empty(lines(txt@), "Database:"@),
        r.user@ == field_or_empty(lines(txt@), "User:"@),
        r.password@ == field_or_empty(lines(txt@), "Password:"@),
{
    let ls = split_lines(txt);
    DbCreds {
        database: field_or_blank(&ls, "Database:"),
        user: field_or_blank(&ls, "User:"),
        password: field_or_blank(&ls, "Password:"),
    }
}

/// Reads the shared phpMyAdmin login note: `Some((user, password))` when both
/// "user=" and "password=" are there and not empty.
pub fn parse_pma_info(txt: &str) -> (r: Option<(String, String)>)
    ensures
        match r {
            Some((u, p)) => u@ == field_or_empty(lines(txt@), "user="@) && p@ == field_or_empty(
                lines(txt@),
                "password="@,
            ) && u@.len() > 0 && p@.len() > 0,
            None => field_or_empty(lines(txt@), "user="@).len() == 0 || field_or_empty(
                lines(txt@),
                "password="@,
            ).len() == 0,
        },
{
    let ls = split_lines(txt);
    let user = field_or_blank(&ls, "user=");
    let pass = field_or_blank(&ls, "password=");
    if user.as_str().is_empty() || pass.as_str().is_empty() {
        None
    } else {
        Some((user, pass))
    }
}

/// The host and port noted in the panel's Redis note ("host: ", "port: ").
pub fn parse_redis_conf(txt: &str) -> (r: (Option<String>, Option<String>))
    ensures
        match r.0 {
            Some(h) => last_field(lines(txt@), "host: "@) == Some(h@),
            None => last_field(lines(txt@), "host: "@) is None,
        },
        match r.1 {
            Some(p) => last_field(lines(txt@), "port: "@) == Some(p@),
            None => last_field(lines(txt@), "port: "@) is None,
        },
{
    let ls = split_lines(txt);
    (find_last_field(&ls, "host: "), find_last_field(&ls, "port: "))
}

/// A line of the root option file that gives a password: after trimming it
/// starts with "password=", and the trimmed rest is not empty.
pub open spec fn gives_password(line: Seq<char>) -> bool {
    starts_with(trim(line), "password="@) && trim(trim(line).skip("password="@.len() as int)).len()
        > 0
}

pub open spec fn password_in(line: Seq<char>) -> Seq<char> {
    trim(trim(line).skip("password="@.len() as int))
}

/// The password of the first line of `ls` that gives one.
pub open spec fn first_password(ls: Seq<Seq<char>>) -> Option<Seq<char>>
    decreases ls.len(),
{
    if ls.len() == 0 {
        None
    } else if gives_password(ls[0]) {
        Some(password_in(ls[0]))
    } else {
        first_password(ls.drop_first())
    }
}

/// The MySQL root password from the panel's option file: the value of the
/// first line that gives one.
pub fn parse_mysql_root_pass(txt: &str) -> (r: Option<String>)
    ensures
        opt_view(r) == first_password(lines(txt@)),
{
    let ls = split_lines(txt);
    let ghost all = lines(txt@);
    let mut i: usize = 0;
    assert(all.skip(0) =~= all);
    while i < ls.len()
        invariant
            i <= ls.len(),
            views(ls@) == all,
            all == lines(txt@),
            first_password(all) == first_password(all.skip(i as int)),
        decreases ls.len() - i,
    {
        assert(views(ls@)[i as int] == ls@[i as int]@);
        assert(all.skip(i as int)[0] == all[i as int]);
        assert(all.skip(i as int).drop_first() =~= all.skip(i + 1));
        let t = trim_vec(&chars_of(ls[i].as_str()));
        match field_value(t.as_str(), "password=") {
            Some(v) => {
                if !v.as_str().is_empty() {
                    return Some(v);
                }
            },
            None => {},
        }
        i += 1;
    }
    assert(all.skip(i as int) =~= Seq::<Seq<char>>::empty());
    None
}

// ───────────────────────── certbot listing ─────────────────────────

/// One certificate of `certbot certificates`: name, domains, expiry, path.
pub struct CertInfo {
    pub name: String,
    pub domains: Option<String>,
    pub expiry: Option<String>,
    pub cert_path: Option<String>,
}

pub type CertView = (Seq<char>, Option<Seq<char>>, Option<Seq<char>>, Option<Seq<char>>);

pub open spec fn opt_view(o: Option<String>) -> Option<Seq<char>> {
    match o {
        Some(s) => Some(s@),
        None => None,
    }
}

impl CertInfo {
    pub open spec fn view(&self) -> CertView {
        (self.name@, opt_view(self.domains), opt_view(self.expiry), opt_view(self.cert_path))
    }
}

pub open spec fn cert_views(v: Seq<CertInfo>) -> Seq<CertView> {
    v.map_values(|c: CertInfo| c.view())
}

/// The listing read up to some line: certificates finished, and the one being read.
pub open spec fn cert_scan(ls: Seq<Seq<char>>) -> (Seq<CertView>, Option<CertView>)
    decreases ls.len(),
{
    if ls.len() == 0 {
        (Seq::empty(), None)
    } else {
        let (done, cur) = cert_scan(ls.drop_last());
        let l = trim(ls.last());
        if starts_with(l, "Certificate Name:"@) {
            let n = trim(l.skip("Certificate Name:"@.len() as int));
            (
                match cur {
                    Some(c) => done.push(c),
                    None => done,
                },
                Some((n, None, None, None)),
            )
        } else if starts_with(l, "Domains:"@) {
            let v = trim(l.skip("Domains:"@.len() as int));
            (done, match cur { Some(c) => Some((c.0, Some(v), c.2, c.3)), None => None })
        } else if starts_with(l, "Expiry Date:"@) {
            let v = trim(l.skip("Expiry Date:"@.len() as int));
            (done, match cur { Some(c) => Some((c.0, c.1, Some(v), c.3)), None => None })
        } else if starts_with(l, "Certificate Path:"@) {
            let v = trim(l.skip("Certificate Path:"@.len() as int));
            (done, match cur { Some(c) => Some((c.0, c.1, c.2, Some(v))), None => None })
        } else {
            (done, cur)
        }
    }
}

/// The certificates a `certbot certificates` output lists.
pub open spec fn certs_listed(out: Seq<char>) -> Seq<CertView> {
    let (done, cur) = cert_scan(lines(out));
    match cur {
        Some(c) => done.push(c),
        None => done,
    }
}

fn some_view(s: String) -> (r: Option<String>)
    ensures
        opt_view(r) == Some(s@),
{
    Some(s)
}

/// Reads the certificates out of `certbot certificates` output.
pub fn parse_cert_list(out: &str) -> (r: Vec<CertInfo>)
    ensures
        cert_views(r@) == certs_listed(out@),
{
    let ls = split_lines(out);
    let mut done: Vec<CertInfo> = Vec::new();
    let mut cur: Option<CertInfo> = None;
    let mut i: usize = 0;
    while i < ls.len()
        invariant
            i <= ls.len(),
            views(ls@) == lines(out@),
            cert_scan(views(ls@).take(i as int)) == (cert_views(done@), match cur {
                Some(c) => Some(c.view()),
                None => None::<CertView>,
            }),
        decreases ls.len() - i,
    {
        let ghost t = views(ls@).take(i + 1);
        assert(t.drop_last() =~= views(ls@).take(i as int));
        assert(t.last() == ls@[i as int]@);
        let l = trim_vec(&chars_of(ls[i].as_str()));
        let ls_i = l.as_str();
        if let Some(v) = field_value(ls_i, "Certificate Name:") {
            let ghost before = done@;
            match cur {
                Some(c) => {
                    done.push(c);
                    assert(cert_views(done@) =~= cert_views(before).push(c.view()));
                },
                None => {},
            }
            cur = Some(CertInfo { name: v, domains: None, expiry: None, cert_path: None });
        } else if let Some(v) = field_value(ls_i, "Domains:") {
            cur = match cur {
                Some(c) => Some(CertInfo { name: c.name, domains: some_view(v), expiry: c.expiry, cert_path: c.cert_path }),
                None => None,
            };
        } else if let Some(v) = field_value(ls_i, "Expiry Date:") {
            cur = match cur {
                Some(c) => Some(CertInfo { name: c.name, domains: c.domains, expiry: some_view(v), cert_path: c.cert_path }),
                None => None,
            };
        } else if let Some(v) = field_value(ls_i, "Certificate Path:") {
            cur = match cur {
                Some(c) => Some(CertInfo { name: c.name, domains: c.domains, expiry: c.expiry, cert_path: some_view(v) }),
                None => None,
            };
        }
        i += 1;
    }
    assert(views(ls@).take(i as int) =~= views(ls@));
    match cur {
        Some(c) => {
            let ghost before = done@;
            done.push(c);
            assert(cert_views(done@) =~= cert_views(before).push(c.view()));
        },
        None => {},
    }
    done
}

// ───────────────────────── archive listings ─────────────────────────

/// The last whitespace-separated word of a trimmed line.
pub open spec fn last_word(l: Seq<char>) -> Seq<char>
    decreases l.len(),
{
    if l.len() == 0 || is_ws(l.last()) {
        Seq::empty()
    } else {
        last_word(l.drop_last()).push(l.last())
    }
}

/// An entry name that is refused: it is absolute, or it holds `..` anywhere
/// (so no entry can climb out of the extraction directory).
pub open spec fn escapes_dir(p: Seq<char>) -> bool {
    ||| starts_with(p, "/"@)
    ||| has_sub(p, ".."@)
}

/// A line that only draws a table rule (dashes and spaces).
pub open spec fn rule_line(l: Seq<char>) -> bool {
    forall|i: int| 0 <= i < l.len() ==> (#[trigger] l[i] == '-' || l[i] == ' ')
}

/// The entry name a listing line stands for, if any: `None` for blank and
/// rule lines; the last word for a `7z` listing, the whole line otherwise.
pub open spec fn entry_of(line: Seq<char>, seven_zip: bool) -> Option<Seq<char>> {
    let l = trim(line);
    if l.len() == 0 || rule_line(l) {
        None
    } else if seven_zip {
        Some(last_word(l))
    } else {
        Some(l)
    }
}

/// Whether line `line` names an escaping entry.
pub open spec fn line_escapes(line: Seq<char>, seven_zip: bool) -> bool {
    entry_of(line, seven_zip) matches Some(p) && escapes_dir(p)
}

fn last_word_exec(l: &Vec<char>) -> (r: Vec<char>)
    ensures
        r@ == last_word(l@),
{
    let mut j: usize = l.len();
    assert(l@.take(j as int) =~= l@);
    assert(l@.skip(j as int) =~= Seq::<char>::empty());
    assert(last_word(l@) + Seq::<char>::empty() =~= last_word(l@));
    while j > 0 && !whitespace(l[j - 1])
        invariant
            j <= l.len(),
            last_word(l@) == last_word(l@.take(j as int)) + l@.skip(j as int),
        decreases j,
    {
        let ghost t = l@.take(j as int);
        assert(t.drop_last() =~= l@.take(j - 1));
        assert(l@.skip(j - 1) =~= seq![l@[j - 1]] + l@.skip(j as int));
        assert(last_word(t) == last_word(l@.take(j - 1)).push(l@[j - 1]));
        assert(last_word(l@.take(j - 1)).push(l@[j - 1]) + l@.skip(j as int) =~= last_word(
            l@.take(j - 1),
        ) + l@.skip(j - 1));
        j -= 1;
    }
    assert(last_word(l@.take(j as int)) =~= Seq::<char>::empty());
    let mut r: Vec<char> = Vec::new();
    let mut k: usize = j;
    while k < l.len()
        invariant
            j <= k <= l.len(),
            r@ == l@.subrange(j as int, k as int),
        decreases l.len() - k,
    {
        r.push(l[k]);
        assert(l@.subrange(j as int, k + 1) =~= l@.subrange(j as int, k as int).push(l@[k as int]));
        k += 1;
    }
    assert(l@.skip(j as int) =~= l@.subrange(j as int, l.len() as int));
    assert(last_word(l@) =~= r@);
    r
}

fn is_rule(l: &Vec<char>) -> (r: bool)
    ensures
        r == rule_line(l@),
{
    let mut i: usize = 0;
    while i < l.len()
        invariant
            i <= l.len(),
            forall|k: int| 0 <= k < i ==> (#[trigger] l@[k] == '-' || l@[k] == ' '),
        decreases l.len() - i,
    {
        if l[i] != '-' && l[i] != ' ' {
            return false;
        }
        i += 1;
    }
    true
}

fn escapes(p: &Vec<char>) -> (r: bool)
    ensures
        r == escapes_dir(p@),
{
    let a = chars_of("/");
    let c = chars_of("..");
    matches_at(p, 0, &a) || contains_seq(p, &c)
}

/// Checks an archive's listing for entries that would escape the
/// extraction directory; `Err` names the first such entry.
pub fn check_archive_listing(listing: &str, seven_zip: bool) -> (r: Result<(), String>)
    ensures
        match r {
            Ok(()) => forall|k: int|
                0 <= k < lines(listing@).len() ==> !line_escapes(
                    #[trigger] lines(listing@)[k],
                    seven_zip,
                ),
            Err(p) => exists|i: int|
                0 <= i < lines(listing@).len() && line_escapes(#[trigger] lines(listing@)[i], seven_zip)
                    && entry_of(lines(listing@)[i], seven_zip) == Some(p@) && forall|k: int|
                    0 <= k < i ==> !line_escapes(#[trigger] lines(listing@)[k], seven_zip),
        },
{
    let ls = split_lines(listing);
    let mut i: usize = 0;
    while i < ls.len()
        invariant
            i <= ls.len(),
            views(ls@) == lines(listing@),
            forall|k: int| 0 <= k < i ==> !line_escapes(#[trigger] lines(listing@)[k], seven_zip),
        decreases ls.len() - i,
    {
        assert(views(ls@)[i as int] == ls@[i as int]@);
        let l = chars_of(trim_vec(&chars_of(ls[i].as_str())).as_str());
        if l.len() > 0 && !is_rule(&l) {
            let p = if seven_zip { last_word_exec(&l) } else { l };
            if escapes(&p) {
                return Err(string_of(&p));
            }
        }
        i += 1;
    }
    Ok(())
}

/// A mode letter that marks a symbolic link or a block or character device.
pub open spec fn special_mode(c: char) -> bool {
    c == 'l' || c == 'b' || c == 'c'
}

/// A line of a typed listing that stands for a link or device entry: for a
/// `tar -tv` or `unzip -Z` listing, one whose mode string (its first word)
/// starts with `l`, `b` or `c`; for a `7z -slt` listing, an `Attributes = `
/// line whose last word (the Unix mode) does.
pub open spec fn special_line(line: Seq<char>, seven_zip: bool) -> bool {
    let l = trim(line);
    if seven_zip {
        starts_with(l, "Attributes = "@) && last_word(l).len() > 0 && special_mode(last_word(l)[0])
    } else {
        l.len() > 0 && special_mode(l[0])
    }
}

fn is_special_line(l: &Vec<char>, seven_zip: bool) -> (r: bool)
    requires
        l@ == trim(l@),
    ensures
        r == special_line(l@, seven_zip),
{
    if seven_zip {
        let a = chars_of("Attributes = ");
        if !matches_at(l, 0, &a) {
            return false;
        }
        let w = last_word_exec(l);
        w.len() > 0 && (w[0] == 'l' || w[0] == 'b' || w[0] == 'c')
    } else {
        l.len() > 0 && (l[0] == 'l' || l[0] == 'b' || l[0] == 'c')
    }
}

/// Checks a typed listing of an archive for symbolic links and device
/// files; `Err` gives the first such line, trimmed.
pub fn check_entry_types(listing: &str, seven_zip: bool) -> (r: Result<(), String>)
    ensures
        match r {
            Ok(()) => forall|k: int|
                0 <= k < lines(listing@).len() ==> !special_line(#[trigger] lines(listing@)[k], seven_zip),
            Err(l) => exists|i: int|
                0 <= i < lines(listing@).len() && special_line(#[trigger] lines(listing@)[i], seven_zip)
                    && l@ == trim(lines(listing@)[i]) && forall|k: int|
                    0 <= k < i ==> !special_line(#[trigger] lines(listing@)[k], seven_zip),
        },
{
    let ls = split_lines(listing);
    let mut i: usize = 0;
    while i < ls.len()
        invariant
            i <= ls.len(),
            views(ls@) == lines(listing@),
            forall|k: int| 0 <= k < i ==> !special_line(#[trigger] lines(listing@)[k], seven_zip),
        decreases ls.len() - i,
    {
        assert(views(ls@)[i as int] == ls@[i as int]@);
        let t = trim_vec(&chars_of(ls[i].as_str()));
        let l = chars_of(t.as_str());
        proof {
            crate::text::lemma_trim_idem(ls@[i as int]@);
        }
        if is_special_line(&l, seven_zip) {
            return Err(t);
        }
        i += 1;
    }
    Ok(())
}

// ───────────────────────── other listings ─────────────────────────

/// Backups beyond the newest `keep` of a newest-first listing.
pub fn backups_to_prune(listing: &str, keep: usize) -> (r: Vec<String>)
    ensures
        views(r@) == (if lines(listing@).len() > keep {
            lines(listing@).skip(keep as int)
        } else {
            Seq::empty()
        }),
{
    let ls = split_lines(listing);
    let mut out: Vec<String> = Vec::new();
    let mut i: usize = keep;
    if ls.len() <= keep {
        assert(views(out@) =~= Seq::<Seq<char>>::empty());
        return out;
    }
    while i < ls.len()
        invariant
            keep <= i <= ls.len(),
            views(ls@) == lines(listing@),
            views(out@) == views(ls@).subrange(keep as int, i as int),
        decreases ls.len() - i,
    {
        let ghost before = out@;
        let item = ls[i].clone();
        proof {
            lemma_views_push(before, item);
        }
        out.push(item);
        assert(views(ls@).subrange(keep as int, i + 1) =~= views(ls@).subrange(keep as int, i as int).push(ls@[i as int]@));
        i += 1;
    }
    assert(views(ls@).subrange(keep as int, i as int) =~= lines(listing@).skip(keep as int));
    out
}

/// The non-blank lines of a listing, trimmed (e.g. service unit names).
pub open spec fn nonblank_trimmed(ls: Seq<Seq<char>>) -> Seq<Seq<char>>
    decreases ls.len(),
{
    if ls.len() == 0 {
        Seq::empty()
    } else if trim(ls.last()).len() == 0 {
        nonblank_trimmed(ls.drop_last())
    } else {
        nonblank_trimmed(ls.drop_last()).push(trim(ls.last()))
    }
}

/// The non-blank trimmed lines of `out`.
pub fn listed_names(out: &str) -> (r: Vec<String>)
    ensures
        views(r@) == nonblank_trimmed(lines(out@)),
{
    let ls = split_lines(out);
    let mut res: Vec<String> = Vec::new();
    let mut i: usize = 0;
    while i < ls.len()
        invariant
            i <= ls.len(),
            views(ls@) == lines(out@),
            views(res@) == nonblank_trimmed(views(ls@).take(i as int)),
        decreases ls.len() - i,
    {
        let ghost t = views(ls@).take(i + 1);
        assert(t.drop_last() =~= views(ls@).take(i as int));
        assert(t.last() == ls@[i as int]@);
        let n = trim_vec(&chars_of(ls[i].as_str()));
        if !n.as_str().is_empty() {
            let ghost before = res@;
            proof {
                lemma_views_push(before, n);
            }
            res.push(n);
        }
        i += 1;
    }
    assert(views(ls@).take(i as int) =~= views(ls@));
    res
}

// ───────────────────────── notes read back ─────────────────────────

/// `s` fits on one line.
pub open spec fn one_line(s: Seq<char>) -> bool {
    !s.contains('\n')
}

/// `s` neither starts nor ends with whitespace.
pub open spec fn trimmed(s: Seq<char>) -> bool {
    s.len() == 0 || (!is_ws(s[0]) && !is_ws(s.last()))
}

/// A line ended by `\n` is read as one line.
pub proof fn lemma_lines_cons(a: Seq<char>, rest: Seq<char>, cur: Seq<char>)
    requires
        one_line(a),
    ensures
        lines_from(a + seq!['\n'] + rest, cur) == seq![strip_cr(cur + a)] + lines_from(
            rest,
            Seq::empty(),
        ),
    decreases a.len(),
{
    let s = a + seq!['\n'] + rest;
    if a.len() == 0 {
        assert(s[0] == '\n');
        assert(s.drop_first() =~= rest);
        assert(cur + a =~= cur);
    } else {
        assert(s[0] == a[0]);
        assert(a[0] != '\n') by {
            assert(a.contains(a[0]) ==> a[0] != '\n');
        }
        assert(s.drop_first() =~= a.drop_first() + seq!['\n'] + rest);
        assert(one_line(a.drop_first())) by {
            if a.drop_first().contains('\n') {
                let j = choose|j: int| 0 <= j < a.drop_first().len() && a.drop_first()[j] == '\n';
                assert(a[j + 1] == '\n');
            }
        }
        lemma_lines_cons(a.drop_first(), rest, cur.push(a[0]));
        assert(cur.push(a[0]) + a.drop_first() =~= cur + a);
    }
}

/// Padding before a trimmed value is trimmed away.
pub proof fn lemma_trim_padded(w: Seq<char>, v: Seq<char>)
    requires
        forall|i: int| 0 <= i < w.len() ==> is_ws(#[trigger] w[i]),
        trimmed(v),
    ensures
        trim(w + v) == v,
    decreases w.len(),
{
    if w.len() == 0 {
        assert(w + v =~= v);
        if v.len() > 0 {
            assert(trim_start(v) == v);
            assert(trim_end(v) == v);
        }
    } else {
        assert((w + v)[0] == w[0]);
        assert((w + v).drop_first() =~= w.drop_first() + v);
        lemma_trim_padded(w.drop_first(), v);
    }
}

/// The last field `p` of a text whose lines are `ls`, when the field's line
/// is `p + pad + v` and no later line starts with `p`.
pub proof fn lemma_field_at(ls: Seq<Seq<char>>, p: Seq<char>, pad: Seq<char>, v: Seq<char>, i: int)
    requires
        0 <= i < ls.len(),
        ls[i] == p + pad + v,
        forall|k: int| 0 <= k < pad.len() ==> is_ws(#[trigger] pad[k]),
        trimmed(v),
        forall|k: int| i < k < ls.len() ==> !starts_with(#[trigger] ls[k], p),
    ensures
        last_field(ls, p) == Some(v),
    decreases ls.len(),
{
    if i < ls.len() - 1 {
        assert(!starts_with(ls[ls.len() - 1], p));
        assert(ls.drop_last()[i] == ls[i]);
        assert forall|k: int| i < k < ls.drop_last().len() implies !starts_with(
            #[trigger] ls.drop_last()[k],
            p,
        ) by {
            assert(ls.drop_last()[k] == ls[k]);
        }
        lemma_field_at(ls.drop_last(), p, pad, v, i);
    } else {
        assert(ls.last().subrange(0, p.len() as int) =~= p);
        assert(ls.last().skip(p.len() as int) =~= pad + v);
        lemma_trim_padded(pad, v);
    }
}

/// A line whose first character differs from the prefix's does not start
/// with it.
pub proof fn lemma_not_prefix(l: Seq<char>, p: Seq<char>)
    requires
        l.len() > 0,
        p.len() > 0,
        l[0] != p[0],
    ensures
        !starts_with(l, p),
{
    if starts_with(l, p) {
        assert(l.subrange(0, p.len() as int)[0] == p[0]);
    }
}

/// A line of a label and a value keeps its end when read, unless the value
/// ends with a carriage return.
pub proof fn lemma_strip_cr_keeps(label: Seq<char>, v: Seq<char>)
    requires
        label.len() > 0,
        label.last() == ' ' || label.last() == ':' || label.last() == '=',
        trimmed(v),
    ensures
        strip_cr(label + v) == label + v,
{
    if v.len() > 0 {
        assert((label + v).last() == v.last());
    } else {
        assert(label + v =~= label);
    }
}

} // verus!
