//! The file manager's rules: where a site's files live, which paths stay
//! inside them, which archives are handled and how, and which names are
//! acceptable.
use vstd::prelude::*;
use crate::request::ascii_lower_of;
use crate::sanitize::{cleaned_file_name, file_name_of, sanitize_archive_name, shell_escape, shell_quoted};
use crate::text::{
    ascii_only, chars_of, ends_with, occurs_at, matches_at, owned, push_str, str_eq, byte_len,
    byte_length, contains_char,
};
use crate::validate::{domain_ok, path_ok, valid_domain, valid_path};

verus! {

// ───────────────────────── case ─────────────────────────

/// What `str::to_lowercase` returns for `s`.
pub uninterp spec fn lowercase(s: Seq<char>) -> Seq<char>;

/// What `str::to_uppercase` returns for `s`.
pub uninterp spec fn uppercase(s: Seq<char>) -> Seq<char>;

pub open spec fn ascii_upper_of(c: char) -> char {
    if 'a' <= c && c <= 'z' {
        ((c as u32) - 32) as char
    } else {
        c
    }
}

/// Calls `str::to_lowercase`. Unicode case mapping takes tables to state, so
/// the result is named; on ASCII text it is the ASCII mapping.
#[verifier::external_body]
pub(crate) fn to_lowercase(s: &str) -> (r: String)
    ensures
        r@ == lowercase(s@),
        ascii_only(s@) ==> r@ == s@.map_values(|c: char| ascii_lower_of(c)),
{
    s.to_lowercase()
}

/// Calls `str::to_uppercase`; named like `to_lowercase`.
#[verifier::external_body]
pub(crate) fn to_uppercase(s: &str) -> (r: String)
    ensures
        r@ == uppercase(s@),
        ascii_only(s@) ==> r@ == s@.map_values(|c: char| ascii_upper_of(c)),
{
    s.to_uppercase()
}

// ───────────────────────── site locations ─────────────────────────

/// The public web root of a site.
pub open spec fn webroot_of(domain: Seq<char>) -> Seq<char> {
    "/var/www/"@ + domain + "/public_html"@
}

/// The public web root of `domain`.
pub fn webroot(domain: &str) -> (r: String)
    ensures
        r@ == webroot_of(domain@),
{
    let mut s = String::new();
    push_str(&mut s, "/var/www/");
    push_str(&mut s, domain);
    push_str(&mut s, "/public_html");
    assert(s@ =~= webroot_of(domain@));
    s
}

/// `s` without its leading slashes (`trim_start_matches('/')`).
pub open spec fn without_leading_slashes(s: Seq<char>) -> Seq<char>
    decreases s.len(),
{
    if s.len() > 0 && s[0] == '/' {
        without_leading_slashes(s.drop_first())
    } else {
        s
    }
}

fn strip_leading_slashes(s: &str) -> (r: String)
    ensures
        r@ == without_leading_slashes(s@),
{
    let v = chars_of(s);
    let mut i: usize = 0;
    assert(v@.skip(0) =~= v@);
    while i < v.len() && v[i] == '/'
        invariant
            i <= v.len(),
            v@ == s@,
            without_leading_slashes(s@) == without_leading_slashes(v@.skip(i as int)),
        decreases v.len() - i,
    {
        assert(v@.skip(i as int).drop_first() =~= v@.skip(i + 1));
        i += 1;
    }
    let r = crate::text::string_of_range(&v, i, v.len());
    assert(v@.subrange(i as int, v.len() as int) =~= v@.skip(i as int));
    r
}

/// `canon` is what `Path::canonicalize` answered for `path` at some moment:
/// its canonical form (absolute, with every link resolved against the disk
/// as it stood then), or the empty text when it failed. A relation, not a
/// function: the disk changes.
pub uninterp spec fn resolved(path: Seq<char>, canon: Seq<char>) -> bool;

/// The canonical form of `path` (`Path::canonicalize`). It resolves links
/// against the disk as it is at the call, so what is promised holds of every
/// outcome: the answer is absolute and is a canonical form of `path`. A path
/// that is not UTF-8 gives nothing. A failure is an answer too, recorded as
/// the empty text.
#[verifier::external_body]
fn canonicalize(path: &str) -> (r: Option<String>)
    ensures
        r matches Some(p) ==> p@.len() > 0 && p@[0] == '/' && resolved(path@, p@),
        r is None ==> resolved(path@, Seq::<char>::empty()),
{
    std::path::Path::new(path).canonicalize().ok().and_then(|p| p.into_os_string().into_string().ok())
}

/// What `Path::new(base).join(rel)` gives on Unix: `rel` itself when it is
/// absolute; otherwise `rel` appended to `base`, after a `/` unless `base` is
/// empty or already ends with one.
pub open spec fn joined(base: Seq<char>, rel: Seq<char>) -> Seq<char> {
    if rel.len() > 0 && rel[0] == '/' {
        rel
    } else if base.len() == 0 || base.last() == '/' {
        base + rel
    } else {
        base + seq!['/'] + rel
    }
}

/// What `Path::new(p).starts_with(base)` answers: `base` is a prefix of `p`
/// component by component.
pub uninterp spec fn path_within(p: Seq<char>, base: Seq<char>) -> bool;

/// Joins `rel` to `base` as `Path::join` does.
pub fn join_path(base: &str, rel: &str) -> (r: String)
    ensures
        r@ == joined(base@, rel@),
{
    let b = chars_of(base);
    let r = chars_of(rel);
    if r.len() > 0 && r[0] == '/' {
        return owned(rel);
    }
    let mut s = owned(base);
    if b.len() > 0 && b[b.len() - 1] != '/' {
        push_str(&mut s, "/");
        proof {
            reveal_strlit("/");
        }
    }
    push_str(&mut s, rel);
    s
}

/// What `Path::new(p).parent()` gives: `p` without its last component.
pub uninterp spec fn parent_of(p: Seq<char>) -> Option<Seq<char>>;

/// Calls `Path::new(p).parent()` (a slice of `p`, so a `str`); a function of
/// its argument, named here.
#[verifier::external_body]
fn path_parent(p: &str) -> (r: Option<String>)
    ensures
        match r {
            Some(q) => parent_of(p@) == Some(q@),
            None => parent_of(p@) is None,
        },
{
    std::path::Path::new(p).parent().and_then(|q| q.to_str()).map(|q| q.to_string())
}

/// Calls `Path::new(p).starts_with(base)`, which compares whole components.
#[verifier::external_body]
fn starts_with_path(p: &str, base: &str) -> (r: bool)
    ensures
        r == path_within(p@, base@),
{
    std::path::Path::new(p).starts_with(base)
}

/// What is looked up for `sub` below the web root of `domain`: the web root
/// itself and `sub` without its leading slashes (to be joined to the web
/// root's canonical form).
pub fn webroot_lookup(domain: &str, sub: &str) -> (r: (String, String))
    ensures
        r.0@ == webroot_of(domain@),
        r.1@ == without_leading_slashes(sub@),
{
    (webroot(domain), strip_leading_slashes(sub))
}

/// `canon` if it lies inside `canon_base` (component by component), else
/// nothing.
pub fn confine(canon: &str, canon_base: &str) -> (r: Option<String>)
    ensures
        r is Some <==> path_within(canon@, canon_base@),
        r matches Some(p) ==> p@ == canon@,
{
    if starts_with_path(canon, canon_base) {
        Some(owned(canon))
    } else {
        None
    }
}

/// What a lookup of `sub` below the web root of `domain` may answer, given
/// what the disk answered: an entry only when the request is valid, the web
/// root resolves to some `b`, `sub` joined to `b` resolves to it, and it lies
/// within `b`; nothing only when the request is invalid, a resolution failed,
/// or the resolved entry lies outside the resolved web root.
pub open spec fn webroot_answer(domain: Seq<char>, sub: Seq<char>, r: Option<Seq<char>>) -> bool {
    let root = webroot_of(domain);
    let rel = without_leading_slashes(sub);
    match r {
        Some(p) => domain_ok(domain) && path_ok(sub) && p.len() > 0 && exists|b: Seq<char>|
            #![trigger resolved(root, b)]
            b.len() > 0 && resolved(root, b) && resolved(joined(b, rel), p) && path_within(p, b),
        None => {
            ||| !domain_ok(domain)
            ||| !path_ok(sub)
            ||| resolved(root, Seq::<char>::empty())
            ||| exists|b: Seq<char>|
                #![trigger resolved(root, b)]
                b.len() > 0 && resolved(root, b) && (resolved(joined(b, rel), Seq::<char>::empty())
                    || exists|p: Seq<char>|
                    #![trigger resolved(joined(b, rel), p)]
                    p.len() > 0 && resolved(joined(b, rel), p) && !path_within(p, b))
        },
    }
}

/// A lookup finds every entry that is there: when the request is valid, the
/// disk resolves the web root to `b` and `sub` joined to `b` to `p` (one
/// answer each), and `p` lies within `b`, the answer is `p` itself.
pub proof fn webroot_lookup_complete(
    domain: Seq<char>,
    sub: Seq<char>,
    b: Seq<char>,
    p: Seq<char>,
    r: Option<Seq<char>>,
)
    requires
        webroot_answer(domain, sub, r),
        domain_ok(domain),
        path_ok(sub),
        b.len() > 0,
        p.len() > 0,
        forall|x: Seq<char>| #[trigger] resolved(webroot_of(domain), x) <==> x == b,
        forall|x: Seq<char>|
            #[trigger] resolved(joined(b, without_leading_slashes(sub)), x) <==> x == p,
        path_within(p, b),
    ensures
        r == Some(p),
{
    let root = webroot_of(domain);
    let rel = without_leading_slashes(sub);
    match r {
        Some(q) => {
            let b2 = choose|b2: Seq<char>| #![trigger resolved(root, b2)]
                b2.len() > 0 && resolved(root, b2) && resolved(joined(b2, rel), q) && path_within(q, b2);
            assert(b2 == b);
        },
        None => {
            assert(!resolved(root, Seq::<char>::empty()));
            if exists|b2: Seq<char>|
                #![trigger resolved(root, b2)]
                b2.len() > 0 && resolved(root, b2) && (resolved(joined(b2, rel), Seq::<char>::empty())
                    || exists|p2: Seq<char>|
                    #![trigger resolved(joined(b2, rel), p2)]
                    p2.len() > 0 && resolved(joined(b2, rel), p2) && !path_within(p2, b2)) {
                let b2 = choose|b2: Seq<char>|
                    #![trigger resolved(root, b2)]
                    b2.len() > 0 && resolved(root, b2) && (resolved(joined(b2, rel), Seq::<char>::empty())
                        || exists|p2: Seq<char>|
                        #![trigger resolved(joined(b2, rel), p2)]
                        p2.len() > 0 && resolved(joined(b2, rel), p2) && !path_within(p2, b2));
                assert(b2 == b);
                assert(!resolved(joined(b, rel), Seq::<char>::empty()));
            }
        },
    }
}

/// Resolves `sub` below the web root of `domain` to an existing entry: gives
/// the canonical web root and the canonical entry, and only if the entry
/// stays inside the web root once links are resolved.
pub fn webroot_resolve(domain: &str, sub: &str) -> (r: Option<(String, String)>)
    ensures
        webroot_answer(
            domain@,
            sub@,
            match r {
                Some((_, p)) => Some(p@),
                None => None,
            },
        ),
        !domain_ok(domain@) || !path_ok(sub@) ==> r is None,
        r matches Some((b, p)) ==> {
            &&& domain_ok(domain@) && path_ok(sub@)
            &&& b@.len() > 0 && b@[0] == '/'
            &&& p@.len() > 0 && p@[0] == '/'
            &&& resolved(webroot_of(domain@), b@)
            &&& resolved(joined(b@, without_leading_slashes(sub@)), p@)
            &&& path_within(p@, b@)
        },
{
    if !valid_domain(domain) || !valid_path(sub) {
        return None;
    }
    let (base, rel) = webroot_lookup(domain, sub);
    let canon_base = match canonicalize(base.as_str()) {
        Some(b) => b,
        None => return None,
    };
    let target = join_path(canon_base.as_str(), rel.as_str());
    let ghost t = joined(canon_base@, without_leading_slashes(sub@));
    let canon = match canonicalize(target.as_str()) {
        Some(c) => c,
        None => {
            assert(resolved(webroot_of(domain@), canon_base@) && resolved(t, Seq::<char>::empty()));
            return None;
        },
    };
    match confine(canon.as_str(), canon_base.as_str()) {
        Some(p) => {
            assert(resolved(webroot_of(domain@), canon_base@));
            Some((canon_base, p))
        },
        None => {
            assert(resolved(t, canon@) && !path_within(canon@, canon_base@));
            assert(resolved(webroot_of(domain@), canon_base@));
            None
        },
    }
}

/// Resolves `sub` below the web root of `domain` to an existing file, and
/// only if it stays inside the web root once links are resolved.
pub fn webroot_existing(domain: &str, sub: &str) -> (r: Option<String>)
    ensures
        webroot_answer(
            domain@,
            sub@,
            match r {
                Some(p) => Some(p@),
                None => None,
            },
        ),
        !domain_ok(domain@) || !path_ok(sub@) ==> r is None,
        r matches Some(p) ==> domain_ok(domain@) && path_ok(sub@) && p@.len() > 0 && p@[0] == '/'
            && exists|base: Seq<char>|
            #![trigger path_within(p@, base)]
            {
                &&& base.len() > 0 && base[0] == '/'
                &&& resolved(webroot_of(domain@), base)
                &&& resolved(joined(base, without_leading_slashes(sub@)), p@)
                &&& path_within(p@, base)
            },
{
    match webroot_resolve(domain, sub) {
        Some((b, p)) => {
            assert(path_within(p@, b@));
            Some(p)
        },
        None => None,
    }
}

/// What a new entry `sub` below the web root of `domain` needs: the
/// canonical web root, the directory to create the entry in (to be created
/// if missing) and the entry's name, the parent and last component of `sub`
/// joined to the canonical web root.
pub fn webroot_new_plan(domain: &str, sub: &str) -> (r: Option<(String, String, String)>)
    ensures
        !domain_ok(domain@) || !path_ok(sub@) || sub@.len() == 0 ==> r is None,
        r matches Some((b, parent, name)) ==> {
            &&& domain_ok(domain@) && path_ok(sub@) && sub@.len() > 0
            &&& b@.len() > 0 && b@[0] == '/'
            &&& resolved(webroot_of(domain@), b@)
            &&& parent_of(joined(b@, without_leading_slashes(sub@))) == Some(parent@)
            &&& file_name_of(joined(b@, without_leading_slashes(sub@))) == Some(name@)
        },
{
    if !valid_domain(domain) || !valid_path(sub) || sub.is_empty() {
        return None;
    }
    let (root, rel) = webroot_lookup(domain, sub);
    let canon_base = match canonicalize(root.as_str()) {
        Some(b) => b,
        None => return None,
    };
    let target = join_path(canon_base.as_str(), rel.as_str());
    let parent = match path_parent(target.as_str()) {
        Some(p) => p,
        None => return None,
    };
    let name = match crate::sanitize::path_file_name(target.as_str()) {
        Some(n) => n,
        None => return None,
    };
    Some((canon_base, parent, name))
}

/// Where a new entry goes, once its directory `parent` exists: the entry
/// `name` in the canonical form of `parent`, and only if that lies inside
/// the canonical web root `canon_base` and `name` is a plain name.
pub fn webroot_new_target(canon_base: &str, parent: &str, name: &str) -> (r: Option<String>)
    ensures
        !new_basename_ok(name@) ==> r is None,
        r matches Some(p) ==> new_basename_ok(name@) && exists|cp: Seq<char>|
            #![trigger resolved(parent@, cp)]
            {
                &&& resolved(parent@, cp)
                &&& path_within(cp, canon_base@)
                &&& p@ == joined(cp, name@)
            },
{
    let canon_parent = match canonicalize(parent) {
        Some(c) => c,
        None => return None,
    };
    new_entry_target(canon_base, canon_parent.as_str(), name)
}

/// Where a new entry named `basename` goes in the directory `canon_parent`:
/// only if that directory lies inside `canon_base` and the name is a plain
/// one.
pub fn new_entry_target(canon_base: &str, canon_parent: &str, basename: &str) -> (r: Option<String>)
    ensures
        r is Some <==> path_within(canon_parent@, canon_base@) && new_basename_ok(basename@),
        r matches Some(p) ==> p@ == joined(canon_parent@, basename@),
{
    if !starts_with_path(canon_parent, canon_base) || !valid_new_basename(basename) {
        return None;
    }
    Some(join_path(canon_parent, basename))
}

/// A name acceptable as the last component of a new entry.
pub open spec fn new_basename_ok(name: Seq<char>) -> bool {
    name != "."@ && name != ".."@ && !name.contains('/')
}

/// Whether `name` may be the last component of a new entry.
pub fn valid_new_basename(name: &str) -> (r: bool)
    ensures
        r == new_basename_ok(name@),
{
    !str_eq(name, ".") && !str_eq(name, "..") && !contains_char(&chars_of(name), '/')
}

/// A new name for a file being renamed: 1..=240 bytes, no separator, not `.`
/// or `..`, no NUL.
pub open spec fn rename_target_ok(name: Seq<char>) -> bool {
    &&& name.len() > 0
    &&& byte_len(name) <= 240
    &&& !name.contains('/')
    &&& !name.contains('\\')
    &&& name != "."@
    &&& name != ".."@
    &&& !name.contains('\0')
}

/// Whether `name` may be a file's new name.
pub fn valid_rename_target(name: &str) -> (r: bool)
    ensures
        r == rename_target_ok(name@),
{
    let v = chars_of(name);
    v.len() > 0 && byte_length(name) <= 240 && !contains_char(&v, '/') && !contains_char(&v, '\\')
        && !str_eq(name, ".") && !str_eq(name, "..") && !contains_char(&v, '\0')
}

/// Whether a batch deletion must skip the resolved entry `target`: it is the
/// canonical web root `canon_base` itself, however the path that led to it
/// was written.
pub fn batch_delete_refused(target: &str, canon_base: &str) -> (r: bool)
    ensures
        r == (target@ == canon_base@),
{
    str_eq(target, canon_base)
}

// ───────────────────────── archives ─────────────────────────

/// The archive formats the file manager extracts.
#[derive(Clone, Copy, Debug, PartialEq, Eq, Structural)]
pub enum ArchiveKind {
    Zip,
    Tgz,
    Tbz2,
    Txz,
    Tar,
    SevenZip,
}

/// The format of an archive, from its (lower-cased) name.
pub open spec fn kind_from_lower(l: Seq<char>) -> Option<ArchiveKind> {
    if ends_with(l, ".zip"@) {
        Some(ArchiveKind::Zip)
    } else if ends_with(l, ".tar.gz"@) || ends_with(l, ".tgz"@) {
        Some(ArchiveKind::Tgz)
    } else if ends_with(l, ".tar.bz2"@) || ends_with(l, ".tbz2"@) {
        Some(ArchiveKind::Tbz2)
    } else if ends_with(l, ".tar.xz"@) || ends_with(l, ".txz"@) {
        Some(ArchiveKind::Txz)
    } else if ends_with(l, ".tar"@) {
        Some(ArchiveKind::Tar)
    } else if ends_with(l, ".7z"@) {
        Some(ArchiveKind::SevenZip)
    } else {
        None
    }
}

fn ends(v: &Vec<char>, suffix: &str) -> (r: bool)
    ensures
        r == ends_with(v@, suffix@),
{
    let p = chars_of(suffix);
    if p.len() > v.len() {
        return false;
    }
    matches_at(v, v.len() - p.len(), &p)
}

/// The format of the archive at `path`, `None` when it is not one the file
/// manager handles.
pub fn archive_kind(path: &str) -> (r: Option<ArchiveKind>)
    ensures
        r == kind_from_lower(lowercase(path@)),
{
    let l = chars_of(to_lowercase(path).as_str());
    if ends(&l, ".zip") {
        Some(ArchiveKind::Zip)
    } else if ends(&l, ".tar.gz") || ends(&l, ".tgz") {
        Some(ArchiveKind::Tgz)
    } else if ends(&l, ".tar.bz2") || ends(&l, ".tbz2") {
        Some(ArchiveKind::Tbz2)
    } else if ends(&l, ".tar.xz") || ends(&l, ".txz") {
        Some(ArchiveKind::Txz)
    } else if ends(&l, ".tar") {
        Some(ArchiveKind::Tar)
    } else if ends(&l, ".7z") {
        Some(ArchiveKind::SevenZip)
    } else {
        None
    }
}

/// The package an extraction needs installed first, if any.
pub fn extract_prerequisite(kind: ArchiveKind) -> (r: Option<&'static str>)
    ensures
        r == match kind {
            ArchiveKind::Zip => Some("unzip"),
            ArchiveKind::Tbz2 => Some("bzip2"),
            ArchiveKind::Txz => Some("xz"),
            ArchiveKind::SevenZip => Some("p7zip-plugins"),
            _ => None::<&'static str>,
        },
{
    match kind {
        ArchiveKind::Zip => Some("unzip"),
        ArchiveKind::Tbz2 => Some("bzip2"),
        ArchiveKind::Txz => Some("xz"),
        ArchiveKind::SevenZip => Some("p7zip-plugins"),
        _ => None,
    }
}

/// The command that lists an archive's entries.
pub open spec fn listing_command_text(kind: ArchiveKind, archive: Seq<char>) -> Seq<char> {
    let a = shell_quoted(archive);
    match kind {
        ArchiveKind::Zip => "unzip -Z1 "@ + a + " 2>/dev/null"@,
        ArchiveKind::Tar => "tar -tf "@ + a + " 2>/dev/null"@,
        ArchiveKind::Tgz => "tar -tzf "@ + a + " 2>/dev/null"@,
        ArchiveKind::Tbz2 => "tar -tjf "@ + a + " 2>/dev/null"@,
        ArchiveKind::Txz => "tar -tJf "@ + a + " 2>/dev/null"@,
        ArchiveKind::SevenZip => "7z l -ba "@ + a + " 2>/dev/null"@,
    }
}

/// The command that lists the entries of `archive`.
pub fn listing_command(kind: ArchiveKind, archive: &str) -> (r: String)
    ensures
        r@ == listing_command_text(kind, archive@),
{
    let a = shell_escape(archive);
    let head = match kind {
        ArchiveKind::Zip => "unzip -Z1 ",
        ArchiveKind::Tar => "tar -tf ",
        ArchiveKind::Tgz => "tar -tzf ",
        ArchiveKind::Tbz2 => "tar -tjf ",
        ArchiveKind::Txz => "tar -tJf ",
        ArchiveKind::SevenZip => "7z l -ba ",
    };
    let mut s = owned(head);
    push_str(&mut s, a.as_str());
    push_str(&mut s, " 2>/dev/null");
    assert(s@ =~= listing_command_text(kind, archive@));
    s
}

/// The command that lists the entries of `archive` with their types: a
/// verbose `tar` listing, `zipinfo`'s long listing, or `7z`'s technical one.
pub open spec fn typed_listing_command_text(kind: ArchiveKind, archive: Seq<char>) -> Seq<char> {
    let a = shell_quoted(archive);
    match kind {
        ArchiveKind::Zip => "unzip -Z "@ + a + " 2>/dev/null"@,
        ArchiveKind::Tar => "tar -tvf "@ + a + " 2>/dev/null"@,
        ArchiveKind::Tgz => "tar -tvzf "@ + a + " 2>/dev/null"@,
        ArchiveKind::Tbz2 => "tar -tvjf "@ + a + " 2>/dev/null"@,
        ArchiveKind::Txz => "tar -tvJf "@ + a + " 2>/dev/null"@,
        ArchiveKind::SevenZip => "7z l -ba -slt "@ + a + " 2>/dev/null"@,
    }
}

/// The command that lists the entries of `archive` with their types.
pub fn typed_listing_command(kind: ArchiveKind, archive: &str) -> (r: String)
    ensures
        r@ == typed_listing_command_text(kind, archive@),
{
    let a = shell_escape(archive);
    let head = match kind {
        ArchiveKind::Zip => "unzip -Z ",
        ArchiveKind::Tar => "tar -tvf ",
        ArchiveKind::Tgz => "tar -tvzf ",
        ArchiveKind::Tbz2 => "tar -tvjf ",
        ArchiveKind::Txz => "tar -tvJf ",
        ArchiveKind::SevenZip => "7z l -ba -slt ",
    };
    let mut s = owned(head);
    push_str(&mut s, a.as_str());
    push_str(&mut s, " 2>/dev/null");
    assert(s@ =~= typed_listing_command_text(kind, archive@));
    s
}

/// The command that extracts `archive` into `dest`.
pub open spec fn extract_command_text(kind: ArchiveKind, archive: Seq<char>, dest: Seq<char>) -> Seq<char> {
    let a = shell_quoted(archive);
    let d = shell_quoted(dest);
    match kind {
        ArchiveKind::Zip => "unzip -o "@ + a + " -d "@ + d + " 2>&1"@,
        ArchiveKind::Tgz => "tar -xzf "@ + a + " -C "@ + d + " --no-same-owner 2>&1"@,
        ArchiveKind::Tbz2 => "tar -xjf "@ + a + " -C "@ + d + " --no-same-owner 2>&1"@,
        ArchiveKind::Txz => "tar -xJf "@ + a + " -C "@ + d + " --no-same-owner 2>&1"@,
        ArchiveKind::Tar => "tar -xf "@ + a + " -C "@ + d + " --no-same-owner 2>&1"@,
        ArchiveKind::SevenZip => "7z x -y -o"@ + d + " "@ + a + " 2>&1"@,
    }
}

/// The command that extracts `archive` into `dest`.
pub fn extract_command(kind: ArchiveKind, archive: &str, dest: &str) -> (r: String)
    ensures
        r@ == extract_command_text(kind, archive@, dest@),
{
    let a = shell_escape(archive);
    let d = shell_escape(dest);
    let mut s = String::new();
    match kind {
        ArchiveKind::SevenZip => {
            push_str(&mut s, "7z x -y -o");
            push_str(&mut s, d.as_str());
            push_str(&mut s, " ");
            push_str(&mut s, a.as_str());
            push_str(&mut s, " 2>&1");
        },
        ArchiveKind::Zip => {
            push_str(&mut s, "unzip -o ");
            push_str(&mut s, a.as_str());
            push_str(&mut s, " -d ");
            push_str(&mut s, d.as_str());
            push_str(&mut s, " 2>&1");
        },
        _ => {
            let head = match kind {
                ArchiveKind::Tgz => "tar -xzf ",
                ArchiveKind::Tbz2 => "tar -xjf ",
                ArchiveKind::Txz => "tar -xJf ",
                _ => "tar -xf ",
            };
            push_str(&mut s, head);
            push_str(&mut s, a.as_str());
            push_str(&mut s, " -C ");
            push_str(&mut s, d.as_str());
            push_str(&mut s, " --no-same-owner 2>&1");
        },
    }
    assert(s@ =~= extract_command_text(kind, archive@, dest@));
    s
}

// ───────────────────────── compression ─────────────────────────

/// How an archive is written, by the name asked for.
#[derive(Clone, Copy, Debug, PartialEq, Eq, Structural)]
pub enum CompressKind {
    Tgz,
    Tbz2,
    Txz,
    Zip,
}

pub open spec fn compress_kind_from_lower(l: Seq<char>) -> CompressKind {
    if ends_with(l, ".tar.gz"@) || ends_with(l, ".tgz"@) {
        CompressKind::Tgz
    } else if ends_with(l, ".tar.bz2"@) || ends_with(l, ".tbz2"@) {
        CompressKind::Tbz2
    } else if ends_with(l, ".tar.xz"@) || ends_with(l, ".txz"@) {
        CompressKind::Txz
    } else {
        CompressKind::Zip
    }
}

/// The format an output name asks for; zip unless it names a tarball.
pub fn compress_kind(out_name: &str) -> (r: CompressKind)
    ensures
        r == compress_kind_from_lower(lowercase(out_name@)),
{
    let l = chars_of(to_lowercase(out_name).as_str());
    if ends(&l, ".tar.gz") || ends(&l, ".tgz") {
        CompressKind::Tgz
    } else if ends(&l, ".tar.bz2") || ends(&l, ".tbz2") {
        CompressKind::Tbz2
    } else if ends(&l, ".tar.xz") || ends(&l, ".txz") {
        CompressKind::Txz
    } else {
        CompressKind::Zip
    }
}

/// The package that writing a format needs.
pub fn compress_prerequisite(kind: CompressKind) -> (r: Option<&'static str>)
    ensures
        r == match kind {
            CompressKind::Tbz2 => Some("bzip2"),
            CompressKind::Txz => Some("xz"),
            CompressKind::Zip => Some("zip"),
            CompressKind::Tgz => None::<&'static str>,
        },
{
    match kind {
        CompressKind::Tbz2 => Some("bzip2"),
        CompressKind::Txz => Some("xz"),
        CompressKind::Zip => Some("zip"),
        CompressKind::Tgz => None,
    }
}

/// The name of the archive to write for `basename`: the name asked for
/// (default "<basename>.<format>", format default "zip"), cleaned; when
/// cleaning leaves nothing, "<basename>.zip".
pub open spec fn compress_output_name_text(
    basename: Seq<char>,
    format: Option<Seq<char>>,
    output: Option<Seq<char>>,
) -> Seq<char> {
    let fmt = match format {
        Some(f) if f.len() > 0 => f,
        _ => "zip"@,
    };
    let raw = match output {
        Some(o) if o.len() > 0 => o,
        _ => basename + "."@ + fmt,
    };
    let cleaned = cleaned_file_name(raw, "archive.zip"@);
    if cleaned.len() == 0 {
        basename + ".zip"@
    } else {
        cleaned
    }
}

/// The name of the archive to write for `basename`.
pub fn compress_output_name(basename: &str, format: Option<&str>, output: Option<&str>) -> (r:
    String)
    ensures
        r@ == compress_output_name_text(
            basename@,
            match format {
                Some(f) => Some(f@),
                None => None,
            },
            match output {
                Some(o) => Some(o@),
                None => None,
            },
        ),
{
    let fmt = match format {
        Some(f) => if f.is_empty() {
            "zip"
        } else {
            f
        },
        None => "zip",
    };
    let raw = match output {
        Some(o) => if o.is_empty() {
            let mut s = owned(basename);
            push_str(&mut s, ".");
            push_str(&mut s, fmt);
            s
        } else {
            owned(o)
        },
        None => {
            let mut s = owned(basename);
            push_str(&mut s, ".");
            push_str(&mut s, fmt);
            s
        },
    };
    let ghost fmt_v = match format {
        Some(f) if f@.len() > 0 => f@,
        _ => "zip"@,
    };
    assert(fmt@ == fmt_v);
    let ghost raw_v = match output {
        Some(o) if o@.len() > 0 => o@,
        _ => basename@ + "."@ + fmt_v,
    };
    assert(raw@ =~= raw_v);
    let cleaned = sanitize_archive_name(raw.as_str());
    if cleaned.as_str().is_empty() {
        let mut s = owned(basename);
        push_str(&mut s, ".zip");
        assert(s@ =~= basename@ + ".zip"@);
        s
    } else {
        cleaned
    }
}

/// The command that writes `basename` (in `parent`) into `out_path`.
pub open spec fn compress_command_text(
    kind: CompressKind,
    parent: Seq<char>,
    out_path: Seq<char>,
    basename: Seq<char>,
) -> Seq<char> {
    let tool = match kind {
        CompressKind::Tgz => "tar -czf "@,
        CompressKind::Tbz2 => "tar -cjf "@,
        CompressKind::Txz => "tar -cJf "@,
        CompressKind::Zip => "zip -rq "@,
    };
    "cd "@ + shell_quoted(parent) + " && "@ + tool + shell_quoted(out_path) + " "@ + shell_quoted(
        basename,
    ) + " 2>&1"@
}

/// The command that writes the archive.
pub fn compress_command(kind: CompressKind, parent: &str, out_path: &str, basename: &str) -> (r:
    String)
    ensures
        r@ == compress_command_text(kind, parent@, out_path@, basename@),
{
    let tool = match kind {
        CompressKind::Tgz => "tar -czf ",
        CompressKind::Tbz2 => "tar -cjf ",
        CompressKind::Txz => "tar -cJf ",
        CompressKind::Zip => "zip -rq ",
    };
    let mut s = owned("cd ");
    push_str(&mut s, shell_escape(parent).as_str());
    push_str(&mut s, " && ");
    push_str(&mut s, tool);
    push_str(&mut s, shell_escape(out_path).as_str());
    push_str(&mut s, " ");
    push_str(&mut s, shell_escape(basename).as_str());
    push_str(&mut s, " 2>&1");
    assert(s@ =~= compress_command_text(kind, parent@, out_path@, basename@));
    s
}

// ───────────────────────── listing and removing ─────────────────────────

/// The directory a listing request shows: the web root when the requested
/// path is nothing but slashes, else the path joined below the web root.
pub open spec fn listing_target_text(domain: Seq<char>, sub: Seq<char>) -> Seq<char> {
    if forall|i: int| 0 <= i < sub.len() ==> #[trigger] sub[i] == '/' {
        webroot_of(domain)
    } else {
        joined(webroot_of(domain), without_leading_slashes(sub))
    }
}

/// The directory a listing request shows, before links are resolved.
pub fn listing_target(domain: &str, sub: &str) -> (r: String)
    ensures
        r@ == listing_target_text(domain@, sub@),
{
    let base = webroot(domain);
    let v = chars_of(sub);
    let mut i: usize = 0;
    while i < v.len()
        invariant
            i <= v.len(),
            v@ == sub@,
            base@ == webroot_of(domain@),
            forall|k: int| 0 <= k < i ==> #[trigger] v@[k] == '/',
        decreases v.len() - i,
    {
        if v[i] != '/' {
            assert(sub@[i as int] != '/');
            let rel = strip_leading_slashes(sub);
            return join_path(base.as_str(), rel.as_str());
        }
        i += 1;
    }
    base
}

/// The command that removes an entry of a batch: a directory with all it
/// holds, or a single file.
pub open spec fn removal_command_text(path: Seq<char>, is_dir: bool) -> Seq<char> {
    (if is_dir {
        "rm -rf "@
    } else {
        "rm -f "@
    }) + shell_quoted(path)
}

/// The command that removes an entry of a batch.
pub fn removal_command(path: &str, is_dir: bool) -> (r: String)
    ensures
        r@ == removal_command_text(path@, is_dir),
{
    let mut s = owned(if is_dir { "rm -rf " } else { "rm -f " });
    push_str(&mut s, shell_escape(path).as_str());
    s
}

/// The file name offered with a download: its double quotes removed.
pub fn attachment_name(name: &str) -> (r: String)
    ensures
        r@ == crate::text::keep(name@, |c: char| c != '"'),
{
    let v = chars_of(name);
    let mut out: Vec<char> = Vec::new();
    let mut i: usize = 0;
    while i < v.len()
        invariant
            i <= v.len(),
            v@ == name@,
            out@ == crate::text::keep(v@.take(i as int), |c: char| c != '"'),
        decreases v.len() - i,
    {
        assert(v@.take(i + 1).drop_last() =~= v@.take(i as int));
        assert(v@.take(i + 1).last() == v@[i as int]);
        if v[i] != '"' {
            out.push(v[i]);
        }
        i += 1;
    }
    assert(v@.take(v.len() as int) =~= v@);
    crate::text::string_of(&out)
}

} // verus!
