//! Websites: the list the panel keeps, and what creating, cloning and
//! securing a site writes (database statements, credential notes, paths,
//! certbot commands).
use vstd::prelude::*;
use crate::auth::random_alnum;
use crate::files::{lowercase, to_lowercase};
use crate::sanitize::{ident_of, no_dots, sanitize_ident, shell_escape, shell_quoted, vn};
use crate::text::{
    chars_of, has_sub, is_ascii_alnum, keep, one_of, owned, push_char, push_str, replace_char,
    str_eq, string_of, trim, trim_str, ascii_alnum, in_set, contains_seq, byte_len, byte_length,
    contains_char,
};
use crate::parse::{
    first_password, gives_password, password_in, field_or_empty, lemma_field_at, lemma_lines_cons, lemma_not_prefix, lemma_strip_cr_keeps, lines,
    lines_from, one_line, opt_view, trimmed,
};
use crate::validate::{
    db_password_ok, domain_ok, ident_ok, valid_db_password, valid_domain, valid_ident,
};

verus! {

// ───────────────────────── the site list ─────────────────────────

/// A website the panel manages.
#[derive(Clone)]
pub struct Website {
    pub id: String,
    pub domain: String,
    pub php_version: String,
    pub mysql_version: String,
    pub db_name: Option<String>,
    pub db_user: Option<String>,
    pub ssl_enabled: bool,
    pub ssl_expiry: Option<String>,
    pub created_at: String,
    pub status: String,
    pub web_root: String,
    pub phpmyadmin_enabled: bool,
    pub redis_db: Option<u8>,
    pub wordpress: bool,
}

/// The domains of a site list, in order.
pub open spec fn domains(s: Seq<Website>) -> Seq<Seq<char>> {
    s.map_values(|w: Website| w.domain@)
}

/// Whether a site with domain `d` is in the list.
pub fn site_exists(sites: &Vec<Website>, d: &str) -> (r: bool)
    ensures
        r == domains(sites@).contains(d@),
{
    let mut i: usize = 0;
    while i < sites.len()
        invariant
            i <= sites.len(),
            forall|k: int| 0 <= k < i ==> #[trigger] domains(sites@)[k] != d@,
        decreases sites.len() - i,
    {
        if str_eq(sites[i].domain.as_str(), d) {
            assert(domains(sites@)[i as int] == d@);
            return true;
        }
        i += 1;
    }
    false
}

/// The index of the first site with domain `d`.
pub fn find_site(sites: &Vec<Website>, d: &str) -> (r: Option<usize>)
    ensures
        match r {
            Some(i) => i < sites.len() && sites@[i as int].domain@ == d@ && forall|k: int|
                0 <= k < i ==> #[trigger] sites@[k].domain@ != d@,
            None => forall|k: int| 0 <= k < sites.len() ==> #[trigger] sites@[k].domain@ != d@,
        },
{
    let mut i: usize = 0;
    while i < sites.len()
        invariant
            i <= sites.len(),
            forall|k: int| 0 <= k < i ==> #[trigger] sites@[k].domain@ != d@,
        decreases sites.len() - i,
    {
        if str_eq(sites[i].domain.as_str(), d) {
            return Some(i);
        }
        i += 1;
    }
    None
}

/// The sites of `s` whose domain is not `d`, in order.
pub open spec fn without_domain(s: Seq<Website>, d: Seq<char>) -> Seq<Website>
    decreases s.len(),
{
    if s.len() == 0 {
        Seq::empty()
    } else if s.last().domain@ == d {
        without_domain(s.drop_last(), d)
    } else {
        without_domain(s.drop_last(), d).push(s.last())
    }
}

/// Removes every site with domain `d`; gives back the first one removed.
pub fn remove_site(sites: &mut Vec<Website>, d: &str) -> (r: Option<Website>)
    ensures
        final(sites)@ == without_domain(old(sites)@, d@),
        match r {
            Some(w) => exists|i: int|
                0 <= i < old(sites)@.len() && old(sites)@[i] == w && w.domain@ == d@ && forall|k: int|
                    0 <= k < i ==> #[trigger] old(sites)@[k].domain@ != d@,
            None => forall|k: int| 0 <= k < old(sites)@.len() ==> #[trigger] old(sites)@[k].domain@ != d@,
        },
{
    let ghost orig = sites@;
    let mut first: Option<Website> = None;
    let mut kept: Vec<Website> = Vec::new();
    let mut i: usize = 0;
    assert(orig.len() == sites.len());
    while sites.len() > 0
        invariant
            i + sites@.len() == orig.len(),
            orig.len() <= usize::MAX,
            sites@ == orig.subrange(i as int, orig.len() as int),
            kept@ == without_domain(orig.take(i as int), d@),
            match first {
                Some(w) => exists|j: int|
                    0 <= j < i && orig[j] == w && w.domain@ == d@ && forall|k: int|
                        0 <= k < j ==> #[trigger] orig[k].domain@ != d@,
                None => forall|k: int| 0 <= k < i ==> #[trigger] orig[k].domain@ != d@,
            },
        decreases sites.len(),
    {
        let w = sites.remove(0);
        assert(w == orig[i as int]);
        assert(sites@ =~= orig.subrange(i + 1, orig.len() as int));
        assert(orig.take(i + 1).drop_last() =~= orig.take(i as int));
        if str_eq(w.domain.as_str(), d) {
            if first.is_none() {
                first = Some(w);
            }
        } else {
            kept.push(w);
        }
        i += 1;
    }
    assert(orig.take(i as int) =~= orig);
    *sites = kept;
    first
}

// ───────────────────────── new sites ─────────────────────────

/// The PHP versions the panel installs.
pub open spec fn php_versions() -> Seq<Seq<char>> {
    seq!["7.4"@, "8.0"@, "8.1"@, "8.2"@, "8.3"@, "8.4"@]
}

/// The MySQL versions the panel installs.
pub open spec fn mysql_versions() -> Seq<Seq<char>> {
    seq!["8.4"@, "9.0"@]
}

/// Whether `v` is a PHP version the panel supports.
pub fn php_version_supported(v: &str) -> (r: bool)
    ensures
        r == php_versions().contains(v@),
{
    let r = str_eq(v, "7.4") || str_eq(v, "8.0") || str_eq(v, "8.1") || str_eq(v, "8.2") || str_eq(
        v,
        "8.3",
    ) || str_eq(v, "8.4");
    proof {
        let p = php_versions();
        if r {
            if v@ == "7.4"@ { assert(p[0] == v@); }
            else if v@ == "8.0"@ { assert(p[1] == v@); }
            else if v@ == "8.1"@ { assert(p[2] == v@); }
            else if v@ == "8.2"@ { assert(p[3] == v@); }
            else if v@ == "8.3"@ { assert(p[4] == v@); }
            else { assert(p[5] == v@); }
        } else {
            assert forall|i: int| 0 <= i < p.len() implies p[i] != v@ by {}
        }
    }
    r
}

/// Whether `v` is a MySQL version the panel supports.
pub fn mysql_version_supported(v: &str) -> (r: bool)
    ensures
        r == mysql_versions().contains(v@),
{
    let r = str_eq(v, "8.4") || str_eq(v, "9.0");
    proof {
        let p = mysql_versions();
        if r {
            if v@ == "8.4"@ { assert(p[0] == v@); } else { assert(p[1] == v@); }
        } else {
            assert forall|i: int| 0 <= i < p.len() implies p[i] != v@ by {}
        }
    }
    r
}

/// A domain as typed, normalised: trimmed and lower-cased.
pub fn normalize_domain(d: &str) -> (r: String)
    ensures
        r@ == lowercase(trim(d@)),
{
    let t = trim_str(d);
    to_lowercase(t.as_str())
}

/// The systemd unit of PHP `v`'s FastCGI server.
pub open spec fn php_service_name_text(v: Seq<char>) -> Seq<char> {
    "php"@ + no_dots(v) + "-php-fpm"@
}

/// The systemd unit of PHP `v`'s FastCGI server.
pub fn php_service_name(v: &str) -> (r: String)
    ensures
        r@ == php_service_name_text(v@),
{
    let mut s = owned("php");
    push_str(&mut s, vn(v).as_str());
    push_str(&mut s, "-php-fpm");
    assert(s@ =~= php_service_name_text(v@));
    s
}

/// The nginx configuration file of a site.
pub fn vhost_path(domain: &str) -> (r: String)
    ensures
        r@ == "/etc/nginx/conf.d/"@ + domain@ + ".conf"@,
{
    let mut s = owned("/etc/nginx/conf.d/");
    push_str(&mut s, domain);
    push_str(&mut s, ".conf");
    assert(s@ =~= "/etc/nginx/conf.d/"@ + domain@ + ".conf"@);
    s
}

/// The placeholder page of a new site; quotes in the domain are escaped.
pub open spec fn landing_page_text(domain: Seq<char>) -> Seq<char> {
    "<?php\necho '<h1>"@ + replace_char(domain, '\'', "&#39;"@) + " is live!</h1><p>PHP '.phpversion().'</p>';\n"@
}

fn replace_quote(s: &str) -> (r: String)
    ensures
        r@ == replace_char(s@, '\'', "&#39;"@),
{
    let v = chars_of(s);
    let mut out = String::new();
    let mut i: usize = 0;
    while i < v.len()
        invariant
            i <= v.len(),
            v@ == s@,
            out@ == replace_char(v@.take(i as int), '\'', "&#39;"@),
        decreases v.len() - i,
    {
        assert(v@.take(i + 1).drop_last() =~= v@.take(i as int));
        if v[i] == '\'' {
            push_str(&mut out, "&#39;");
        } else {
            push_char(&mut out, v[i]);
        }
        i += 1;
    }
    assert(v@.take(v.len() as int) =~= v@);
    out
}

/// The placeholder page of a new site.
pub fn landing_page(domain: &str) -> (r: String)
    ensures
        r@ == landing_page_text(domain@),
{
    let mut s = owned("<?php\necho '<h1>");
    push_str(&mut s, replace_quote(domain).as_str());
    push_str(&mut s, " is live!</h1><p>PHP '.phpversion().'</p>';\n");
    assert(s@ =~= landing_page_text(domain@));
    s
}

// ───────────────────────── databases ─────────────────────────

/// `s` with `.` and `-` turned into `_`.
pub open spec fn underscored(s: Seq<char>) -> Seq<char> {
    s.map_values(|c: char| if c == '.' || c == '-' { '_' } else { c })
}

/// The database, user and password planned for a new site.
pub struct DbPlan {
    pub database: String,
    pub user: String,
    pub password: String,
}

/// The database name for a site: the one asked for, else the domain with
/// `.`/`-` as `_`; made a valid identifier.
pub open spec fn planned_db(domain: Seq<char>, db_name: Option<Seq<char>>) -> Seq<char> {
    ident_of(
        match db_name {
            Some(n) if n.len() > 0 => n,
            _ => underscored(domain),
        },
    )
}

/// The database user for a site: the one asked for, else "u_" and the first
/// 12 characters of the database name; made a valid identifier.
pub open spec fn planned_user(db: Seq<char>, db_user: Option<Seq<char>>) -> Seq<char> {
    ident_of(
        match db_user {
            Some(u) if u.len() > 0 => u,
            _ => "u_"@ + (if db.len() <= 12 { db } else { db.take(12) }),
        },
    )
}

pub open spec fn opt_str_view(o: Option<&str>) -> Option<Seq<char>> {
    match o {
        Some(s) => Some(s@),
        None => None,
    }
}

fn underscore(s: &str) -> (r: String)
    ensures
        r@ == underscored(s@),
{
    let v = chars_of(s);
    let mut out: Vec<char> = Vec::new();
    let mut i: usize = 0;
    while i < v.len()
        invariant
            i <= v.len(),
            v@ == s@,
            out@ == underscored(v@.take(i as int)),
        decreases v.len() - i,
    {
        let c = v[i];
        out.push(if c == '.' || c == '-' { '_' } else { c });
        assert(out@ =~= underscored(v@.take(i + 1)));
        i += 1;
    }
    assert(v@.take(v.len() as int) =~= v@);
    string_of(&out)
}

/// Plans the database of a new site. A password given must be a valid
/// database password (else `Err`); without one a random 20-character
/// password is made.
pub fn plan_site_database(
    domain: &str,
    db_name: Option<&str>,
    db_user: Option<&str>,
    db_password: Option<&str>,
) -> (r: Result<DbPlan, ()>)
    ensures
        (db_password matches Some(p) && p@.len() > 0 && !db_password_ok(p@)) <==> r is Err,
        r matches Ok(plan) ==> {
            &&& plan.database@ == planned_db(domain@, opt_str_view(db_name))
            &&& plan.user@ == planned_user(plan.database@, opt_str_view(db_user))
            &&& match db_password {
                Some(p) if p@.len() > 0 => plan.password@ == p@,
                _ => plan.password@.len() == 20 && forall|i: int|
                    0 <= i < 20 ==> is_ascii_alnum(#[trigger] plan.password@[i]),
            }
        },
{
    let raw_db = match db_name {
        Some(n) => if n.is_empty() {
            underscore(domain)
        } else {
            owned(n)
        },
        None => underscore(domain),
    };
    let db = sanitize_ident(raw_db.as_str());
    let raw_user = match db_user {
        Some(u) => if u.is_empty() {
            None
        } else {
            Some(owned(u))
        },
        None => None,
    };
    let raw_user = match raw_user {
        Some(u) => u,
        None => {
            let dv = chars_of(db.as_str());
            let n = if dv.len() <= 12 { dv.len() } else { 12 };
            let mut s = owned("u_");
            push_str(&mut s, crate::text::string_of_range(&dv, 0, n).as_str());
            assert(dv@.subrange(0, n as int) =~= (if db@.len() <= 12 { db@ } else { db@.take(12) }));
            s
        },
    };
    let user = sanitize_ident(raw_user.as_str());
    let password = match db_password {
        Some(p) => if p.is_empty() {
            random_alnum(20)
        } else if valid_db_password(p) {
            owned(p)
        } else {
            return Err(());
        },
        None => random_alnum(20),
    };
    Ok(DbPlan { database: db, user, password })
}

/// Statements that create a site's database and user, and grant the user
/// the database.
pub open spec fn create_db_sql_text(db: Seq<char>, user: Seq<char>, pass: Seq<char>) -> Seq<char> {
    "CREATE DATABASE IF NOT EXISTS `"@ + db
        + "` CHARACTER SET utf8mb4 COLLATE utf8mb4_unicode_ci;CREATE USER IF NOT EXISTS '"@ + user
        + "'@'localhost' IDENTIFIED BY '"@ + pass + "';ALTER USER '"@ + user
        + "'@'localhost' IDENTIFIED BY '"@ + pass + "';GRANT ALL PRIVILEGES ON `"@ + db + "`.* TO '"@
        + user + "'@'localhost';FLUSH PRIVILEGES;"@
}

/// The statements that create a site's database and user.
pub fn create_db_sql(db: &str, user: &str, pass: &str) -> (r: String)
    ensures
        r@ == create_db_sql_text(db@, user@, pass@),
{
    let mut s = owned("CREATE DATABASE IF NOT EXISTS `");
    push_str(&mut s, db);
    push_str(&mut s, "` CHARACTER SET utf8mb4 COLLATE utf8mb4_unicode_ci;CREATE USER IF NOT EXISTS '");
    push_str(&mut s, user);
    push_str(&mut s, "'@'localhost' IDENTIFIED BY '");
    push_str(&mut s, pass);
    push_str(&mut s, "';ALTER USER '");
    push_str(&mut s, user);
    push_str(&mut s, "'@'localhost' IDENTIFIED BY '");
    push_str(&mut s, pass);
    push_str(&mut s, "';GRANT ALL PRIVILEGES ON `");
    push_str(&mut s, db);
    push_str(&mut s, "`.* TO '");
    push_str(&mut s, user);
    push_str(&mut s, "'@'localhost';FLUSH PRIVILEGES;");
    assert(s@ =~= create_db_sql_text(db@, user@, pass@));
    s
}

/// Statements that create the database and user of a cloned site.
pub open spec fn clone_db_sql_text(db: Seq<char>, user: Seq<char>, pass: Seq<char>) -> Seq<char> {
    "CREATE DATABASE IF NOT EXISTS `"@ + db
        + "` CHARACTER SET utf8mb4 COLLATE utf8mb4_unicode_ci; CREATE USER IF NOT EXISTS '"@ + user
        + "'@'localhost' IDENTIFIED BY '"@ + pass + "'; GRANT ALL PRIVILEGES ON `"@ + db + "`.* TO '"@
        + user + "'@'localhost'; FLUSH PRIVILEGES;"@
}

/// The statements that create a cloned site's database and user.
pub fn clone_db_sql(db: &str, user: &str, pass: &str) -> (r: String)
    ensures
        r@ == clone_db_sql_text(db@, user@, pass@),
{
    let mut s = owned("CREATE DATABASE IF NOT EXISTS `");
    push_str(&mut s, db);
    push_str(&mut s, "` CHARACTER SET utf8mb4 COLLATE utf8mb4_unicode_ci; CREATE USER IF NOT EXISTS '");
    push_str(&mut s, user);
    push_str(&mut s, "'@'localhost' IDENTIFIED BY '");
    push_str(&mut s, pass);
    push_str(&mut s, "'; GRANT ALL PRIVILEGES ON `");
    push_str(&mut s, db);
    push_str(&mut s, "`.* TO '");
    push_str(&mut s, user);
    push_str(&mut s, "'@'localhost'; FLUSH PRIVILEGES;");
    assert(s@ =~= clone_db_sql_text(db@, user@, pass@));
    s
}

/// Statements that drop a site's database and user.
pub open spec fn drop_db_sql_text(db: Seq<char>, user: Seq<char>) -> Seq<char> {
    "DROP DATABASE IF EXISTS `"@ + db + "`; DROP USER IF EXISTS '"@ + user
        + "'@'localhost'; FLUSH PRIVILEGES;"@
}

/// The statements that drop a site's database and user.
pub fn drop_db_sql(db: &str, user: &str) -> (r: String)
    ensures
        r@ == drop_db_sql_text(db@, user@),
{
    let mut s = owned("DROP DATABASE IF EXISTS `");
    push_str(&mut s, db);
    push_str(&mut s, "`; DROP USER IF EXISTS '");
    push_str(&mut s, user);
    push_str(&mut s, "'@'localhost'; FLUSH PRIVILEGES;");
    assert(s@ =~= drop_db_sql_text(db@, user@));
    s
}

/// The statement that sets the MySQL root password.
pub open spec fn root_password_sql_text(pass: Seq<char>) -> Seq<char> {
    "ALTER USER 'root'@'localhost' IDENTIFIED BY '"@ + pass + "'; FLUSH PRIVILEGES;"@
}

/// The statement that sets the MySQL root password.
pub fn root_password_sql(pass: &str) -> (r: String)
    ensures
        r@ == root_password_sql_text(pass@),
{
    let mut s = owned("ALTER USER 'root'@'localhost' IDENTIFIED BY '");
    push_str(&mut s, pass);
    push_str(&mut s, "'; FLUSH PRIVILEGES;");
    assert(s@ =~= root_password_sql_text(pass@));
    s
}

/// The MySQL option file that holds the root password.
pub open spec fn root_cnf_note(pass: Seq<char>) -> Seq<char> {
    "[client]\nuser=root\npassword="@ + pass + "\n"@
}

/// The MySQL option file that holds the root password.
pub fn root_cnf_text(pass: &str) -> (r: String)
    ensures
        r@ == root_cnf_note(pass@),
{
    let mut s = owned("[client]\nuser=root\npassword=");
    push_str(&mut s, pass);
    push_str(&mut s, "\n");
    assert(s@ =~= "[client]\nuser=root\npassword="@ + pass@ + "\n"@);
    s
}

/// Names and passwords that the validators admit cannot leave the quoted
/// places the statements put them in: they hold no quote, backquote or
/// backslash.
pub proof fn validated_values_stay_quoted(name: Seq<char>, pass: Seq<char>)
    requires
        ident_ok(name),
        db_password_ok(pass),
    ensures
        !name.contains('\''),
        !name.contains('`'),
        !name.contains('\\'),
        !pass.contains('\''),
        !pass.contains('`'),
        !pass.contains('\\'),
{
    reveal_strlit("._-+!@#%^*=?");
    assert forall|i: int| 0 <= i < name.len() implies name[i] != '\'' && name[i] != '`' && name[i]
        != '\\' by {
        assert((|c: char| crate::validate::ident_char(c))(name[i]));
    }
    assert forall|i: int| 0 <= i < pass.len() implies pass[i] != '\'' && pass[i] != '`' && pass[i]
        != '\\' by {
        assert((|c: char| crate::validate::db_password_char(c))(pass[i]));
    }
}

/// The name of a cloned site's database.
pub fn clone_db_name(src_db: &str) -> (r: String)
    ensures
        r@ == ident_of(src_db@ + "_clone"@),
{
    let mut s = owned(src_db);
    push_str(&mut s, "_clone");
    sanitize_ident(s.as_str())
}

/// The database a clone gets, if any: a copy of the source's database,
/// named after it, unless the request says not to copy (copying is the
/// default) or the source has none.
pub fn clone_db_plan(copy_db: Option<bool>, source: &Website) -> (r: Option<String>)
    ensures
        r is Some <==> copy_db != Some(false) && source.db_name is Some,
        r matches Some(n) ==> n@ == ident_of(source.db_name.unwrap()@ + "_clone"@),
{
    let copy = match copy_db {
        Some(b) => b,
        None => true,
    };
    if !copy {
        return None;
    }
    match &source.db_name {
        Some(d) => Some(clone_db_name(d.as_str())),
        None => None,
    }
}

// ───────────────────────── credential notes ─────────────────────────

/// Where a site's database credentials are noted.
pub open spec fn creds_path_text(domain: Seq<char>) -> Seq<char> {
    "/etc/nitpanel/db_"@ + replace_char(domain, '.', seq!['_']) + ".txt"@
}

/// Where a site's database credentials are noted.
pub fn creds_path(domain: &str) -> (r: String)
    ensures
        r@ == creds_path_text(domain@),
{
    let v = chars_of(domain);
    let mut mid = String::new();
    let mut i: usize = 0;
    while i < v.len()
        invariant
            i <= v.len(),
            v@ == domain@,
            mid@ == replace_char(v@.take(i as int), '.', seq!['_']),
        decreases v.len() - i,
    {
        assert(v@.take(i + 1).drop_last() =~= v@.take(i as int));
        if v[i] == '.' {
            push_char(&mut mid, '_');
            assert(mid@ =~= replace_char(v@.take(i + 1), '.', seq!['_']));
        } else {
            push_char(&mut mid, v[i]);
        }
        i += 1;
    }
    assert(v@.take(v.len() as int) =~= v@);
    let mut s = owned("/etc/nitpanel/db_");
    push_str(&mut s, mid.as_str());
    push_str(&mut s, ".txt");
    assert(s@ =~= creds_path_text(domain@));
    s
}

/// The credential note of a new site.
pub open spec fn creds_note_text(domain: Seq<char>, db: Seq<char>, user: Seq<char>, pass: Seq<char>) -> Seq<char> {
    "Domain:   "@ + domain + "\nDatabase: "@ + db + "\nUser:     "@ + user + "\nPassword: "@ + pass
        + "\n"@
}

/// The credential note of a new site.
pub fn creds_note(domain: &str, db: &str, user: &str, pass: &str) -> (r: String)
    ensures
        r@ == creds_note_text(domain@, db@, user@, pass@),
{
    let mut s = owned("Domain:   ");
    push_str(&mut s, domain);
    push_str(&mut s, "\nDatabase: ");
    push_str(&mut s, db);
    push_str(&mut s, "\nUser:     ");
    push_str(&mut s, user);
    push_str(&mut s, "\nPassword: ");
    push_str(&mut s, pass);
    push_str(&mut s, "\n");
    assert(s@ =~= creds_note_text(domain@, db@, user@, pass@));
    s
}

/// The credential note of a cloned site.
pub open spec fn clone_note_text(db: Seq<char>, user: Seq<char>, pass: Seq<char>) -> Seq<char> {
    "Database: "@ + db + "\nUser: "@ + user + "\nPassword: "@ + pass + "\nHost: localhost\n"@
}

/// The credential note of a cloned site.
pub fn clone_note(db: &str, user: &str, pass: &str) -> (r: String)
    ensures
        r@ == clone_note_text(db@, user@, pass@),
{
    let mut s = owned("Database: ");
    push_str(&mut s, db);
    push_str(&mut s, "\nUser: ");
    push_str(&mut s, user);
    push_str(&mut s, "\nPassword: ");
    push_str(&mut s, pass);
    push_str(&mut s, "\nHost: localhost\n");
    assert(s@ =~= clone_note_text(db@, user@, pass@));
    s
}

// ───────────────────────── certificates ─────────────────────────

/// Whether an e-mail is good enough for certbot: it has an `@` and at most
/// 254 bytes.
pub fn ssl_email_acceptable(email: &str) -> (r: bool)
    ensures
        r == (email@.contains('@') && byte_len(email@) <= 254),
{
    contains_char(&chars_of(email), '@') && byte_length(email) <= 254
}

pub open spec fn certbot_email_char(c: char) -> bool {
    is_ascii_alnum(c) || one_of(c, "@._-+"@)
}

/// The e-mail handed to certbot: only letters, digits and `@._-+` kept.
pub fn certbot_email(email: &str) -> (r: String)
    ensures
        r@ == keep(email@, |c: char| certbot_email_char(c)),
{
    let v = chars_of(email);
    let mut out: Vec<char> = Vec::new();
    let mut i: usize = 0;
    while i < v.len()
        invariant
            i <= v.len(),
            v@ == email@,
            out@ == keep(v@.take(i as int), |c: char| certbot_email_char(c)),
        decreases v.len() - i,
    {
        assert(v@.take(i + 1).drop_last() =~= v@.take(i as int));
        assert(v@.take(i + 1).last() == v@[i as int]);
        if ascii_alnum(v[i]) || in_set(v[i], "@._-+") {
            out.push(v[i]);
        }
        i += 1;
    }
    assert(v@.take(v.len() as int) =~= v@);
    string_of(&out)
}

/// The extra `-d` argument for the `www.` name, when it resolves.
pub open spec fn www_arg_text(domain: Seq<char>, has_www: bool) -> Seq<char> {
    if has_www {
        "-d www."@ + shell_quoted(domain)
    } else {
        Seq::empty()
    }
}

/// The certbot command that proves control through the web root.
pub open spec fn certbot_webroot_text(webroot: Seq<char>, domain: Seq<char>, has_www: bool, email: Seq<char>) -> Seq<char> {
    "certbot certonly --webroot -w "@ + shell_quoted(webroot) + " -d "@ + shell_quoted(domain) + " "@
        + www_arg_text(domain, has_www) + " --email "@ + shell_quoted(email)
        + " --agree-tos --non-interactive --no-eff-email --keep-until-expiring 2>&1"@
}

/// The certbot command that goes through the nginx plugin.
pub open spec fn certbot_nginx_text(domain: Seq<char>, has_www: bool, email: Seq<char>) -> Seq<char> {
    "certbot --nginx -d "@ + shell_quoted(domain) + " "@ + www_arg_text(domain, has_www)
        + " --email "@ + shell_quoted(email)
        + " --agree-tos --non-interactive --no-eff-email --redirect --keep-until-expiring 2>&1"@
}

fn www_arg(domain: &str, has_www: bool) -> (r: String)
    ensures
        r@ == www_arg_text(domain@, has_www),
{
    if has_www {
        let mut s = owned("-d www.");
        push_str(&mut s, shell_escape(domain).as_str());
        assert(s@ =~= www_arg_text(domain@, has_www));
        s
    } else {
        String::new()
    }
}

/// The certbot command that proves control through the web root.
pub fn certbot_webroot_command(webroot: &str, domain: &str, has_www: bool, email: &str) -> (r:
    String)
    ensures
        r@ == certbot_webroot_text(webroot@, domain@, has_www, email@),
{
    let mut s = owned("certbot certonly --webroot -w ");
    push_str(&mut s, shell_escape(webroot).as_str());
    push_str(&mut s, " -d ");
    push_str(&mut s, shell_escape(domain).as_str());
    push_str(&mut s, " ");
    push_str(&mut s, www_arg(domain, has_www).as_str());
    push_str(&mut s, " --email ");
    push_str(&mut s, shell_escape(email).as_str());
    push_str(&mut s, " --agree-tos --non-interactive --no-eff-email --keep-until-expiring 2>&1");
    assert(s@ =~= certbot_webroot_text(webroot@, domain@, has_www, email@));
    s
}

/// The certbot command that goes through the nginx plugin.
pub fn certbot_nginx_command(domain: &str, has_www: bool, email: &str) -> (r: String)
    ensures
        r@ == certbot_nginx_text(domain@, has_www, email@),
{
    let mut s = owned("certbot --nginx -d ");
    push_str(&mut s, shell_escape(domain).as_str());
    push_str(&mut s, " ");
    push_str(&mut s, www_arg(domain, has_www).as_str());
    push_str(&mut s, " --email ");
    push_str(&mut s, shell_escape(email).as_str());
    push_str(&mut s, " --agree-tos --non-interactive --no-eff-email --redirect --keep-until-expiring 2>&1");
    assert(s@ =~= certbot_nginx_text(domain@, has_www, email@));
    s
}

/// Why certbot failed, as far as its output tells.
#[derive(Clone, Copy, Debug, PartialEq, Eq, Structural)]
pub enum SslFailure {
    RateLimited,
    DnsNotReady,
    Unreachable,
    Other,
}

pub open spec fn ssl_failure_of(out: Seq<char>) -> SslFailure {
    if has_sub(out, "too many failed authorizations"@) || has_sub(out, "rate.limit"@) {
        SslFailure::RateLimited
    } else if has_sub(out, "NXDOMAIN"@) || has_sub(out, "no valid A records"@) || has_sub(
        out,
        "DNS problem"@,
    ) {
        SslFailure::DnsNotReady
    } else if has_sub(out, "Connection refused"@) || has_sub(out, "connection refused"@) {
        SslFailure::Unreachable
    } else {
        SslFailure::Other
    }
}

fn mentions(v: &Vec<char>, p: &str) -> (r: bool)
    ensures
        r == has_sub(v@, p@),
{
    contains_seq(v, &chars_of(p))
}

/// Classifies certbot's output.
pub fn ssl_failure(out: &str) -> (r: SslFailure)
    ensures
        r == ssl_failure_of(out@),
{
    let v = chars_of(out);
    if mentions(&v, "too many failed authorizations") || mentions(&v, "rate.limit") {
        SslFailure::RateLimited
    } else if mentions(&v, "NXDOMAIN") || mentions(&v, "no valid A records") || mentions(
        &v,
        "DNS problem",
    ) {
        SslFailure::DnsNotReady
    } else if mentions(&v, "Connection refused") || mentions(&v, "connection refused") {
        SslFailure::Unreachable
    } else {
        SslFailure::Other
    }
}

// ───────────────────────── keeping the list ─────────────────────────

/// No two sites share a domain.
pub open spec fn unique_domains(s: Seq<Website>) -> bool {
    forall|i: int, j: int| 0 <= i < j < s.len() ==> #[trigger] s[i].domain@ != #[trigger] s[j].domain@
}

/// Why a new site was refused.
#[derive(Clone, Copy, Debug, PartialEq, Eq, Structural)]
pub enum NewSiteError {
    InvalidDomain,
    BadPhpVersion,
    BadMysqlVersion,
    Exists,
}

/// Checks a request for a new site, in the panel's order: the domain
/// (trimmed and lower-cased), the PHP version, the MySQL version, and that
/// no site has the domain yet. Gives the normalised domain.
pub fn check_new_site(sites: &Vec<Website>, domain: &str, php: &str, mysql: &str) -> (r: Result<
    String,
    NewSiteError,
>)
    ensures
        ({
            let d = lowercase(trim(domain@));
            match r {
                Ok(n) => n@ == d && domain_ok(d) && php_versions().contains(php@)
                    && mysql_versions().contains(mysql@) && !domains(sites@).contains(d),
                Err(NewSiteError::InvalidDomain) => !domain_ok(d),
                Err(NewSiteError::BadPhpVersion) => domain_ok(d) && !php_versions().contains(php@),
                Err(NewSiteError::BadMysqlVersion) => domain_ok(d) && php_versions().contains(php@)
                    && !mysql_versions().contains(mysql@),
                Err(NewSiteError::Exists) => domain_ok(d) && php_versions().contains(php@)
                    && mysql_versions().contains(mysql@) && domains(sites@).contains(d),
            }
        }),
{
    let d = normalize_domain(domain);
    if !valid_domain(d.as_str()) {
        return Err(NewSiteError::InvalidDomain);
    }
    if !php_version_supported(php) {
        return Err(NewSiteError::BadPhpVersion);
    }
    if !mysql_version_supported(mysql) {
        return Err(NewSiteError::BadMysqlVersion);
    }
    if site_exists(sites, d.as_str()) {
        return Err(NewSiteError::Exists);
    }
    Ok(d)
}

/// Appends a site unless one with its domain is already listed.
pub fn add_site(sites: &mut Vec<Website>, site: Website) -> (r: bool)
    ensures
        r == !domains(old(sites)@).contains(site.domain@),
        r ==> final(sites)@ == old(sites)@.push(site),
        !r ==> final(sites)@ == old(sites)@,
{
    if site_exists(sites, site.domain.as_str()) {
        return false;
    }
    sites.push(site);
    true
}

/// A new site record as the panel stores it.
pub fn new_site(
    id: String,
    domain: String,
    php_version: String,
    mysql_version: String,
    db: Option<(String, String)>,
    web_root: String,
    created_at: String,
) -> (w: Website)
    ensures
        w.id == id,
        w.domain == domain,
        w.php_version == php_version,
        w.mysql_version == mysql_version,
        w.db_name == (match db {
            Some(p) => Some(p.0),
            None => None::<String>,
        }),
        w.db_user == (match db {
            Some(p) => Some(p.1),
            None => None::<String>,
        }),
        !w.ssl_enabled,
        w.ssl_expiry is None,
        w.created_at == created_at,
        w.status@ == "active"@,
        w.web_root == web_root,
        !w.phpmyadmin_enabled,
        w.redis_db is None,
        !w.wordpress,
{
    let (db_name, db_user) = match db {
        Some(p) => (Some(p.0), Some(p.1)),
        None => (None, None),
    };
    Website {
        id,
        domain,
        php_version,
        mysql_version,
        db_name,
        db_user,
        ssl_enabled: false,
        ssl_expiry: None,
        created_at,
        status: owned("active"),
        web_root,
        phpmyadmin_enabled: false,
        redis_db: None,
        wordpress: false,
    }
}

/// Why a clone was refused.
#[derive(Clone, Copy, Debug, PartialEq, Eq, Structural)]
pub enum CloneError {
    InvalidDomain,
    SameDomain,
    SourceMissing,
    TargetExists,
}

/// Checks a clone request in the panel's order: both domains valid, not the
/// same, the source listed and the target not. Gives the source's index.
pub fn check_clone(sites: &Vec<Website>, source: &str, target: &str) -> (r: Result<
    usize,
    CloneError,
>)
    ensures
        match r {
            Ok(i) => {
                &&& domain_ok(source@) && domain_ok(target@) && source@ != target@
                &&& i < sites.len() && sites@[i as int].domain@ == source@
                &&& forall|k: int| 0 <= k < i ==> #[trigger] sites@[k].domain@ != source@
                &&& !domains(sites@).contains(target@)
            },
            Err(CloneError::InvalidDomain) => !domain_ok(source@) || !domain_ok(target@),
            Err(CloneError::SameDomain) => domain_ok(source@) && domain_ok(target@) && source@
                == target@,
            Err(CloneError::SourceMissing) => domain_ok(source@) && domain_ok(target@) && source@
                != target@ && !domains(sites@).contains(source@),
            Err(CloneError::TargetExists) => domain_ok(source@) && domain_ok(target@) && source@
                != target@ && domains(sites@).contains(source@) && domains(sites@).contains(
                target@,
            ),
        },
{
    if !valid_domain(source) || !valid_domain(target) {
        return Err(CloneError::InvalidDomain);
    }
    if str_eq(source, target) {
        return Err(CloneError::SameDomain);
    }
    let i = match find_site(sites, source) {
        Some(i) => i,
        None => {
            assert forall|k: int| 0 <= k < domains(sites@).len() implies domains(sites@)[k]
                != source@ by {
                assert(sites@[k].domain@ != source@);
            }
            return Err(CloneError::SourceMissing);
        },
    };
    if site_exists(sites, target) {
        assert(domains(sites@)[i as int] == source@);
        return Err(CloneError::TargetExists);
    }
    Ok(i)
}

/// The record of a site cloned from `src`: its PHP and MySQL versions and
/// its WordPress flag are kept; the database, if copied, serves as both
/// database and user name; certificates and phpMyAdmin start off.
pub fn cloned_site(
    src: &Website,
    id: String,
    target: String,
    db: Option<String>,
    web_root: String,
    created_at: String,
) -> (w: Website)
    ensures
        w.id == id,
        w.domain == target,
        w.php_version@ == src.php_version@,
        w.mysql_version@ == src.mysql_version@,
        w.db_name == db,
        opt_view(w.db_user) == opt_view(db),
        !w.ssl_enabled,
        w.ssl_expiry is None,
        w.created_at == created_at,
        w.status@ == "Đang chạy"@,
        w.web_root == web_root,
        !w.phpmyadmin_enabled,
        w.redis_db is None,
        w.wordpress == src.wordpress,
{
    let db_user = match &db {
        Some(d) => Some(owned(d.as_str())),
        None => None,
    };
    Website {
        id,
        domain: target,
        php_version: owned(src.php_version.as_str()),
        mysql_version: owned(src.mysql_version.as_str()),
        db_name: db,
        db_user,
        ssl_enabled: false,
        ssl_expiry: None,
        created_at,
        status: owned("Đang chạy"),
        web_root,
        phpmyadmin_enabled: false,
        redis_db: None,
        wordpress: src.wordpress,
    }
}

/// `i` is the first site of `s` with domain `d`.
pub open spec fn first_with(s: Seq<Website>, d: Seq<char>, i: int) -> bool {
    0 <= i < s.len() && s[i].domain@ == d && forall|k: int| 0 <= k < i ==> #[trigger] s[k].domain@ != d
}

/// No site of `s` has domain `d`.
pub open spec fn none_with(s: Seq<Website>, d: Seq<char>) -> bool {
    forall|k: int| 0 <= k < s.len() ==> #[trigger] s[k].domain@ != d
}

pub open spec fn with_ssl(w: Website) -> Website {
    Website { ssl_enabled: true, ..w }
}

pub open spec fn with_expiry(w: Website, e: Option<String>) -> Website {
    Website { ssl_expiry: e, ..w }
}

pub open spec fn with_certificate(w: Website, date: String) -> Website {
    Website { ssl_enabled: true, ssl_expiry: Some(date), ..w }
}

pub open spec fn with_phpmyadmin(w: Website, on: bool) -> Website {
    Website { phpmyadmin_enabled: on, ..w }
}

/// Notes that the first site with `domain` has a certificate now.
pub fn mark_ssl(sites: &mut Vec<Website>, domain: &str) -> (r: Option<usize>)
    ensures
        match r {
            Some(i) => first_with(old(sites)@, domain@, i as int) && final(sites)@ == old(
                sites,
            )@.update(i as int, with_ssl(old(sites)@[i as int])),
            None => none_with(old(sites)@, domain@) && final(sites)@ == old(sites)@,
        },
{
    match find_site(sites, domain) {
        Some(i) => {
            let ghost before = sites@;
            let mut w = sites.remove(i);
            w.ssl_enabled = true;
            sites.insert(i, w);
            assert(sites@ =~= before.update(i as int, with_ssl(before[i as int])));
            Some(i)
        },
        None => None,
    }
}

/// Records the certificate expiry of the first site with `domain`.
pub fn set_ssl_expiry(sites: &mut Vec<Website>, domain: &str, expiry: Option<String>) -> (r:
    Option<usize>)
    ensures
        match r {
            Some(i) => first_with(old(sites)@, domain@, i as int) && final(sites)@ == old(
                sites,
            )@.update(i as int, with_expiry(old(sites)@[i as int], expiry)),
            None => none_with(old(sites)@, domain@) && final(sites)@ == old(sites)@,
        },
{
    match find_site(sites, domain) {
        Some(i) => {
            let ghost before = sites@;
            let mut w = sites.remove(i);
            w.ssl_expiry = expiry;
            sites.insert(i, w);
            assert(sites@ =~= before.update(i as int, with_expiry(before[i as int], expiry)));
            Some(i)
        },
        None => None,
    }
}

/// Notes a certificate issued on `date` for the first site with `domain`.
pub fn mark_certificate(sites: &mut Vec<Website>, domain: &str, date: String) -> (r: Option<usize>)
    ensures
        match r {
            Some(i) => first_with(old(sites)@, domain@, i as int) && final(sites)@ == old(
                sites,
            )@.update(i as int, with_certificate(old(sites)@[i as int], date)),
            None => none_with(old(sites)@, domain@) && final(sites)@ == old(sites)@,
        },
{
    match find_site(sites, domain) {
        Some(i) => {
            let ghost before = sites@;
            let mut w = sites.remove(i);
            w.ssl_enabled = true;
            w.ssl_expiry = Some(date);
            sites.insert(i, w);
            assert(sites@ =~= before.update(i as int, with_certificate(before[i as int], date)));
            Some(i)
        },
        None => None,
    }
}

/// Turns the phpMyAdmin link of the first site with `domain` on or off.
pub fn set_phpmyadmin(sites: &mut Vec<Website>, domain: &str, on: bool) -> (r: Option<usize>)
    ensures
        match r {
            Some(i) => first_with(old(sites)@, domain@, i as int) && final(sites)@ == old(
                sites,
            )@.update(i as int, with_phpmyadmin(old(sites)@[i as int], on)),
            None => none_with(old(sites)@, domain@) && final(sites)@ == old(sites)@,
        },
{
    match find_site(sites, domain) {
        Some(i) => {
            let ghost before = sites@;
            let mut w = sites.remove(i);
            w.phpmyadmin_enabled = on;
            sites.insert(i, w);
            assert(sites@ =~= before.update(i as int, with_phpmyadmin(before[i as int], on)));
            Some(i)
        },
        None => None,
    }
}

proof fn lemma_without_domain_members(s: Seq<Website>, d: Seq<char>)
    ensures
        forall|j: int|
            0 <= j < without_domain(s, d).len() ==> #[trigger] without_domain(s, d)[j].domain@ != d
                && s.contains(without_domain(s, d)[j]),
        without_domain(s, d).len() <= s.len(),
    decreases s.len(),
{
    if s.len() > 0 {
        lemma_without_domain_members(s.drop_last(), d);
        let rest = without_domain(s.drop_last(), d);
        assert forall|j: int| 0 <= j < without_domain(s, d).len() implies #[trigger] without_domain(
            s,
            d,
        )[j].domain@ != d && s.contains(without_domain(s, d)[j]) by {
            if j < rest.len() {
                assert(without_domain(s, d)[j] == rest[j]);
                assert(rest[j].domain@ != d);
                assert(s.drop_last().contains(rest[j]));
                let k = choose|k: int| 0 <= k < s.drop_last().len() && s.drop_last()[k] == rest[j];
                assert(s[k] == rest[j]);
            } else {
                assert(without_domain(s, d)[j] == s.last());
                assert(s[s.len() - 1] == s.last());
            }
        }
    }
}

proof fn lemma_without_domain_unique(s: Seq<Website>, d: Seq<char>)
    requires
        unique_domains(s),
    ensures
        unique_domains(without_domain(s, d)),
    decreases s.len(),
{
    if s.len() > 0 {
        let t = s.drop_last();
        assert(unique_domains(t)) by {
            assert forall|i: int, j: int| 0 <= i < j < t.len() implies #[trigger] t[i].domain@
                != #[trigger] t[j].domain@ by {
                assert(t[i] == s[i] && t[j] == s[j]);
            }
        }
        lemma_without_domain_unique(t, d);
        lemma_without_domain_members(t, d);
        let rest = without_domain(t, d);
        if s.last().domain@ != d {
            let u = rest.push(s.last());
            assert forall|i: int, j: int| 0 <= i < j < u.len() implies #[trigger] u[i].domain@
                != #[trigger] u[j].domain@ by {
                if j == u.len() - 1 {
                    assert(u[i] == rest[i]);
                    assert(rest[i].domain@ != d);
                    assert(t.contains(rest[i]));
                    let k = choose|k: int| 0 <= k < t.len() && t[k] == rest[i];
                    assert(s[k] == t[k]);
                    assert(s[k].domain@ != s[s.len() - 1].domain@);
                } else {
                    assert(u[i] == rest[i] && u[j] == rest[j]);
                }
            }
        }
    }
}

/// The site list never holds two sites with one domain: adding checks for
/// the domain first, removing keeps the rest apart and leaves no site with
/// the removed domain, and changing a site's settings leaves domains alone.
pub proof fn site_domains_stay_unique(s: Seq<Website>, w: Website, d: Seq<char>, i: int, x: Website)
    requires
        unique_domains(s),
        0 <= i < s.len(),
        x.domain == s[i].domain,
    ensures
        !domains(s).contains(w.domain@) ==> unique_domains(s.push(w)),
        unique_domains(without_domain(s, d)),
        !domains(without_domain(s, d)).contains(d),
        unique_domains(s.update(i, x)),
{
    if !domains(s).contains(w.domain@) {
        let u = s.push(w);
        assert forall|a: int, b: int| 0 <= a < b < u.len() implies #[trigger] u[a].domain@
            != #[trigger] u[b].domain@ by {
            if b == s.len() {
                assert(domains(s)[a] == s[a].domain@);
                assert(u[a] == s[a]);
            } else {
                assert(u[a] == s[a] && u[b] == s[b]);
            }
        }
    }
    lemma_without_domain_unique(s, d);
    lemma_without_domain_members(s, d);
    let r = without_domain(s, d);
    assert forall|k: int| 0 <= k < domains(r).len() implies domains(r)[k] != d by {
        assert(r[k].domain@ != d);
    }
    let v = s.update(i, x);
    assert forall|a: int, b: int| 0 <= a < b < v.len() implies #[trigger] v[a].domain@
        != #[trigger] v[b].domain@ by {
        assert(v[a].domain@ == s[a].domain@);
        assert(v[b].domain@ == s[b].domain@);
    }
}

// ───────────────────────── notes read back ─────────────────────────

proof fn lemma_label_one_line(label: Seq<char>, v: Seq<char>)
    requires
        one_line(label),
        one_line(v),
    ensures
        one_line(label + v),
{
    if (label + v).contains('\n') {
        let j = choose|j: int| 0 <= j < (label + v).len() && (label + v)[j] == '\n';
        if j < label.len() {
            assert(label[j] == '\n');
        } else {
            assert(v[j - label.len()] == '\n');
        }
    }
}

/// What a new site's credential note records, reading the note gives back:
/// its database, user and password, when none of them spans lines or has
/// whitespace around it (and the domain spans no lines).
pub proof fn creds_note_reads_back(domain: Seq<char>, db: Seq<char>, user: Seq<char>, pass: Seq<char>)
    requires
        one_line(domain),
        one_line(db),
        one_line(user),
        one_line(pass),
        trimmed(db),
        trimmed(user),
        trimmed(pass),
    ensures
        field_or_empty(lines(creds_note_text(domain, db, user, pass)), "Database:"@) == db,
        field_or_empty(lines(creds_note_text(domain, db, user, pass)), "User:"@) == user,
        field_or_empty(lines(creds_note_text(domain, db, user, pass)), "Password:"@) == pass,
{
    reveal_strlit("Domain:   ");
    reveal_strlit("\nDatabase: ");
    reveal_strlit("Database: ");
    reveal_strlit("Database:");
    reveal_strlit("\nUser:     ");
    reveal_strlit("User:     ");
    reveal_strlit("User:");
    reveal_strlit("\nPassword: ");
    reveal_strlit("Password: ");
    reveal_strlit("Password:");
    reveal_strlit("\n");
    reveal_strlit(" ");
    reveal_strlit("     ");
    let l1 = "Domain:   "@ + domain;
    let l2 = "Database: "@ + db;
    let l3 = "User:     "@ + user;
    let l4 = "Password: "@ + pass;
    let nl = seq!['\n'];
    let e = Seq::<char>::empty();
    assert(creds_note_text(domain, db, user, pass) =~= l1 + nl + (l2 + nl + (l3 + nl + (l4 + nl
        + e))));
    assert(one_line("Domain:   "@));
    assert(one_line("Database: "@));
    assert(one_line("User:     "@));
    assert(one_line("Password: "@));
    lemma_label_one_line("Domain:   "@, domain);
    lemma_label_one_line("Database: "@, db);
    lemma_label_one_line("User:     "@, user);
    lemma_label_one_line("Password: "@, pass);
    lemma_lines_cons(l4, e, e);
    lemma_lines_cons(l3, l4 + nl + e, e);
    lemma_lines_cons(l2, l3 + nl + (l4 + nl + e), e);
    lemma_lines_cons(l1, l2 + nl + (l3 + nl + (l4 + nl + e)), e);
    assert(lines_from(e, e) =~= Seq::<Seq<char>>::empty());
    lemma_strip_cr_keeps("Database: "@, db);
    lemma_strip_cr_keeps("User:     "@, user);
    lemma_strip_cr_keeps("Password: "@, pass);
    assert(e + l2 =~= l2);
    assert(e + l3 =~= l3);
    assert(e + l4 =~= l4);
    let ls = lines(creds_note_text(domain, db, user, pass));
    assert(ls =~= seq![crate::parse::strip_cr(e + l1), l2, l3, l4]);
    lemma_not_prefix(l3, "Database:"@);
    lemma_not_prefix(l4, "Database:"@);
    lemma_not_prefix(l4, "User:"@);
    assert("Database: "@ =~= "Database:"@ + " "@);
    assert("User:     "@ =~= "User:"@ + "     "@);
    assert("Password: "@ =~= "Password:"@ + " "@);
    assert(l2 =~= "Database:"@ + " "@ + db);
    assert(l3 =~= "User:"@ + "     "@ + user);
    assert(l4 =~= "Password:"@ + " "@ + pass);
    lemma_field_at(ls, "Database:"@, " "@, db, 1);
    lemma_field_at(ls, "User:"@, "     "@, user, 2);
    lemma_field_at(ls, "Password:"@, " "@, pass, 3);
}

/// The root password the option file is written with is the one read from
/// it, when it is not empty, spans no lines and has no whitespace around it.
pub proof fn root_cnf_reads_back(pass: Seq<char>)
    requires
        pass.len() > 0,
        one_line(pass),
        trimmed(pass),
    ensures
        first_password(lines(root_cnf_note(pass))) == Some(pass),
{
    reveal_strlit("[client]\nuser=root\npassword=");
    reveal_strlit("[client]");
    reveal_strlit("user=root");
    reveal_strlit("password=");
    reveal_strlit("\n");
    let l1 = "[client]"@;
    let l2 = "user=root"@;
    let l3 = "password="@ + pass;
    let nl = seq!['\n'];
    let e = Seq::<char>::empty();
    assert(root_cnf_note(pass) =~= l1 + nl + (l2 + nl + (l3 + nl + e)));
    assert(one_line(l1));
    assert(one_line(l2));
    assert(one_line("password="@));
    lemma_label_one_line("password="@, pass);
    lemma_lines_cons(l3, e, e);
    lemma_lines_cons(l2, l3 + nl + e, e);
    lemma_lines_cons(l1, l2 + nl + (l3 + nl + e), e);
    assert(lines_from(e, e) =~= Seq::<Seq<char>>::empty());
    lemma_strip_cr_keeps("password="@, pass);
    assert(e + l1 =~= l1);
    assert(e + l2 =~= l2);
    assert(e + l3 =~= l3);
    assert(crate::parse::strip_cr(l1) == l1);
    assert(crate::parse::strip_cr(l2) == l2);
    let ls = lines(root_cnf_note(pass));
    assert(ls =~= seq![l1, l2, l3]);
    crate::parse::lemma_trim_padded(e, l1);
    crate::parse::lemma_trim_padded(e, l2);
    crate::parse::lemma_trim_padded(e, l3);
    crate::parse::lemma_trim_padded(e, pass);
    assert(e + l1 =~= l1 && e + l2 =~= l2 && e + pass =~= pass);
    lemma_not_prefix(l1, "password="@);
    lemma_not_prefix(l2, "password="@);
    assert(l3.subrange(0, 9) =~= "password="@);
    assert(l3.skip(9) =~= pass);
    assert(!gives_password(ls[0]));
    assert(!gives_password(ls[1]));
    assert(gives_password(ls[2]));
    assert(password_in(ls[2]) == pass);
    assert(ls.drop_first() =~= seq![l2, l3]);
    assert(ls.drop_first().drop_first() =~= seq![l3]);
    assert(ls.drop_first().drop_first()[0] == l3);
    assert(ls.drop_first()[0] == l2);
    assert(first_password(ls.drop_first().drop_first()) == Some(pass));
    assert(first_password(ls.drop_first()) == Some(pass));
}

/// What a cloned site's credential note records, reading the note gives
/// back, under the same conditions as for a new site.
pub proof fn clone_note_reads_back(db: Seq<char>, user: Seq<char>, pass: Seq<char>)
    requires
        one_line(db),
        one_line(user),
        one_line(pass),
        trimmed(db),
        trimmed(user),
        trimmed(pass),
    ensures
        field_or_empty(lines(clone_note_text(db, user, pass)), "Database:"@) == db,
        field_or_empty(lines(clone_note_text(db, user, pass)), "User:"@) == user,
        field_or_empty(lines(clone_note_text(db, user, pass)), "Password:"@) == pass,
{
    reveal_strlit("Database: ");
    reveal_strlit("Database:");
    reveal_strlit("\nUser: ");
    reveal_strlit("User: ");
    reveal_strlit("User:");
    reveal_strlit("\nPassword: ");
    reveal_strlit("Password: ");
    reveal_strlit("Password:");
    reveal_strlit("\nHost: localhost\n");
    reveal_strlit("Host: localhost");
    reveal_strlit(" ");
    let l1 = "Database: "@ + db;
    let l2 = "User: "@ + user;
    let l3 = "Password: "@ + pass;
    let l4 = "Host: localhost"@;
    let nl = seq!['\n'];
    let e = Seq::<char>::empty();
    assert(clone_note_text(db, user, pass) =~= l1 + nl + (l2 + nl + (l3 + nl + (l4 + nl + e))));
    assert(one_line("Database: "@));
    assert(one_line("User: "@));
    assert(one_line("Password: "@));
    assert(one_line(l4));
    lemma_label_one_line("Database: "@, db);
    lemma_label_one_line("User: "@, user);
    lemma_label_one_line("Password: "@, pass);
    lemma_lines_cons(l4, e, e);
    lemma_lines_cons(l3, l4 + nl + e, e);
    lemma_lines_cons(l2, l3 + nl + (l4 + nl + e), e);
    lemma_lines_cons(l1, l2 + nl + (l3 + nl + (l4 + nl + e)), e);
    assert(lines_from(e, e) =~= Seq::<Seq<char>>::empty());
    lemma_strip_cr_keeps("Database: "@, db);
    lemma_strip_cr_keeps("User: "@, user);
    lemma_strip_cr_keeps("Password: "@, pass);
    assert(e + l1 =~= l1);
    assert(e + l2 =~= l2);
    assert(e + l3 =~= l3);
    assert(e + l4 =~= l4);
    assert(crate::parse::strip_cr(l4) == l4);
    let ls = lines(clone_note_text(db, user, pass));
    assert(ls =~= seq![l1, l2, l3, l4]);
    lemma_not_prefix(l2, "Database:"@);
    lemma_not_prefix(l3, "Database:"@);
    lemma_not_prefix(l4, "Database:"@);
    lemma_not_prefix(l3, "User:"@);
    lemma_not_prefix(l4, "User:"@);
    lemma_not_prefix(l4, "Password:"@);
    assert(l1 =~= "Database:"@ + " "@ + db);
    assert(l2 =~= "User:"@ + " "@ + user);
    assert(l3 =~= "Password:"@ + " "@ + pass);
    lemma_field_at(ls, "Database:"@, " "@, db, 0);
    lemma_field_at(ls, "User:"@, " "@, user, 1);
    lemma_field_at(ls, "Password:"@, " "@, pass, 2);
}

// ───────────────────────── certificate outcomes ─────────────────────────

/// What the operator is told when certbot failed: a hint by the kind of
/// failure, then certbot's own output.
pub open spec fn ssl_failure_message_text(domain: Seq<char>, out: Seq<char>) -> Seq<char> {
    match ssl_failure_of(out) {
        SslFailure::RateLimited => "⏳ Let's Encrypt rate limit — đã thử quá nhiều lần.\nĐợi 1 tiếng rồi thử lại.\n\nChi tiết:\n"@
            + out,
        SslFailure::DnsNotReady => "🌐 DNS chưa trỏ về server này.\nCần tạo bản ghi A cho "@ + domain
            + " trỏ về IP server.\n\nChi tiết:\n"@ + out,
        SslFailure::Unreachable => "🔌 Server không phản hồi port 80.\nKiểm tra Nginx đang chạy và firewall mở port 80/443.\n\nChi tiết:\n"@
            + out,
        SslFailure::Other => out,
    }
}

/// What the operator is told when certbot failed for `domain`.
pub fn ssl_failure_message(domain: &str, out: &str) -> (r: String)
    ensures
        r@ == ssl_failure_message_text(domain@, out@),
{
    match ssl_failure(out) {
        SslFailure::RateLimited => {
            let mut s = owned("⏳ Let's Encrypt rate limit — đã thử quá nhiều lần.\nĐợi 1 tiếng rồi thử lại.\n\nChi tiết:\n");
            push_str(&mut s, out);
            s
        },
        SslFailure::DnsNotReady => {
            let mut s = owned("🌐 DNS chưa trỏ về server này.\nCần tạo bản ghi A cho ");
            push_str(&mut s, domain);
            push_str(&mut s, " trỏ về IP server.\n\nChi tiết:\n");
            push_str(&mut s, out);
            assert(s@ =~= ssl_failure_message_text(domain@, out@));
            s
        },
        SslFailure::Unreachable => {
            let mut s = owned("🔌 Server không phản hồi port 80.\nKiểm tra Nginx đang chạy và firewall mở port 80/443.\n\nChi tiết:\n");
            push_str(&mut s, out);
            s
        },
        SslFailure::Other => owned(out),
    }
}

/// The combined output when the web-root attempt failed and the nginx
/// plugin was tried after it.
pub open spec fn both_attempts_text(first: Seq<char>, second: Seq<char>) -> Seq<char> {
    "--- webroot ---\n"@ + first + "\n--- nginx plugin ---\n"@ + second
}

/// The combined output of both certbot attempts.
pub fn both_attempts(first: &str, second: &str) -> (r: String)
    ensures
        r@ == both_attempts_text(first@, second@),
{
    let mut s = owned("--- webroot ---\n");
    push_str(&mut s, first);
    push_str(&mut s, "\n--- nginx plugin ---\n");
    push_str(&mut s, second);
    assert(s@ =~= both_attempts_text(first@, second@));
    s
}

/// The expiry date certbot reported: its output trimmed, nothing when that
/// is empty.
pub fn expiry_of(out: &str) -> (r: Option<String>)
    ensures
        trim(out@).len() == 0 ==> r is None,
        trim(out@).len() > 0 ==> opt_view(r) == Some(trim(out@)),
{
    let t = trim_str(out);
    if t.as_str().is_empty() {
        None
    } else {
        Some(t)
    }
}

/// The renewal job the panel installs.
pub open spec fn renew_cron_text() -> Seq<char> {
    "0 3 * * * root certbot renew --quiet --no-self-upgrade --post-hook \"systemctl reload nginx 2>/dev/null\"\n"@
}

/// The renewal job the panel installs.
pub fn renew_cron() -> (r: &'static str)
    ensures
        r@ == renew_cron_text(),
{
    "0 3 * * * root certbot renew --quiet --no-self-upgrade --post-hook \"systemctl reload nginx 2>/dev/null\"\n"
}

/// The renewal command: a dry run, or the real one followed by a reload.
pub open spec fn renew_command_text(dry_run: bool) -> Seq<char> {
    if dry_run {
        "certbot renew --dry-run 2>&1"@
    } else {
        "certbot renew --quiet --no-self-upgrade 2>&1; systemctl reload nginx 2>&1"@
    }
}

/// The renewal command: a dry run, or the real one followed by a reload.
pub fn renew_command(dry_run: bool) -> (r: &'static str)
    ensures
        r@ == renew_command_text(dry_run),
{
    if dry_run {
        "certbot renew --dry-run 2>&1"
    } else {
        "certbot renew --quiet --no-self-upgrade 2>&1; systemctl reload nginx 2>&1"
    }
}

// ───────────────────────── removing a site ─────────────────────────

/// The statements that drop a removed site's database: only when asked, when
/// the site had both a database and a user, and both are valid identifiers.
pub open spec fn drop_plan_text(site: Option<Website>, drop: bool) -> Option<Seq<char>> {
    if !drop {
        None
    } else {
        match site {
            Some(w) => match (w.db_name, w.db_user) {
                (Some(d), Some(u)) => if ident_ok(d@) && ident_ok(u@) {
                    Some(drop_db_sql_text(d@, u@))
                } else {
                    None
                },
                _ => None,
            },
            None => None,
        }
    }
}

/// The statements that drop a removed site's database, if any are due.
pub fn drop_plan(site: &Option<Website>, drop: bool) -> (r: Option<String>)
    ensures
        opt_view(r) == drop_plan_text(*site, drop),
{
    if !drop {
        return None;
    }
    match site {
        Some(w) => match (&w.db_name, &w.db_user) {
            (Some(d), Some(u)) => if valid_ident(d.as_str()) && valid_ident(u.as_str()) {
                Some(drop_db_sql(d.as_str(), u.as_str()))
            } else {
                None
            },
            _ => None,
        },
        None => None,
    }
}

// ───────────────────────── Redis ─────────────────────────

/// The sites that have a Redis database, with it, in order.
pub open spec fn redis_assignments_of(s: Seq<Website>) -> Seq<(Seq<char>, u8)>
    decreases s.len(),
{
    if s.len() == 0 {
        Seq::empty()
    } else {
        match s.last().redis_db {
            Some(db) => redis_assignments_of(s.drop_last()).push((s.last().domain@, db)),
            None => redis_assignments_of(s.drop_last()),
        }
    }
}

/// The sites that have a Redis database, with it, in order.
pub fn redis_assignments(sites: &Vec<Website>) -> (r: Vec<(String, u8)>)
    ensures
        r@.map_values(|p: (String, u8)| (p.0@, p.1)) == redis_assignments_of(sites@),
{
    let mut out: Vec<(String, u8)> = Vec::new();
    let mut i: usize = 0;
    while i < sites.len()
        invariant
            i <= sites.len(),
            out@.map_values(|p: (String, u8)| (p.0@, p.1)) == redis_assignments_of(
                sites@.take(i as int),
            ),
        decreases sites.len() - i,
    {
        assert(sites@.take(i + 1).drop_last() =~= sites@.take(i as int));
        assert(sites@.take(i + 1).last() == sites@[i as int]);
        match sites[i].redis_db {
            Some(db) => {
                let ghost before = out@;
                out.push((owned(sites[i].domain.as_str()), db));
                assert(out@.map_values(|p: (String, u8)| (p.0@, p.1)) =~= before.map_values(
                    |p: (String, u8)| (p.0@, p.1),
                ).push((sites@[i as int].domain@, db)));
            },
            None => {},
        }
        i += 1;
    }
    assert(sites@.take(sites.len() as int) =~= sites@);
    out
}

} // verus!
