//! The shell commands the panel runs on a site's behalf: ownership,
//! PHP-FPM units, backups, clones, certificates and bans. Every value that
//! is not a fixed word goes in single quotes.
use vstd::prelude::*;
use crate::sanitize::{shell_escape, shell_quoted};
use crate::text::{chars_of, contains_seq, has_sub, owned, push_str};

verus! {

/// The command that gives a directory tree to the web server's user.
pub open spec fn chown_tree_command_text(user: Seq<char>, path: Seq<char>) -> Seq<char> {
    "chown -R "@ + user + ":"@ + user + " "@ + shell_quoted(path) + " 2>/dev/null"@
}

/// The command that gives a directory tree to the web server's user.
pub fn chown_tree_command(user: &str, path: &str) -> (r: String)
    ensures
        r@ == chown_tree_command_text(user@, path@),
{
    let mut s = owned("chown -R ");
    push_str(&mut s, user);
    push_str(&mut s, ":");
    push_str(&mut s, user);
    push_str(&mut s, " ");
    push_str(&mut s, shell_escape(path).as_str());
    push_str(&mut s, " 2>/dev/null");
    assert(s@ =~= chown_tree_command_text(user@, path@));
    s
}

/// The command that gives a new web root to the web server's user and opens it for reading.
pub open spec fn webroot_setup_command_text(user: Seq<char>, root: Seq<char>) -> Seq<char> {
    "chown -R "@ + user + ":"@ + user + " "@ + shell_quoted(root) + " 2>/dev/null; chmod 755 "@ + shell_quoted(root)
}

/// The command that gives a new web root to the web server's user and opens it for reading.
pub fn webroot_setup_command(user: &str, root: &str) -> (r: String)
    ensures
        r@ == webroot_setup_command_text(user@, root@),
{
    let mut s = owned("chown -R ");
    push_str(&mut s, user);
    push_str(&mut s, ":");
    push_str(&mut s, user);
    push_str(&mut s, " ");
    push_str(&mut s, shell_escape(root).as_str());
    push_str(&mut s, " 2>/dev/null; chmod 755 ");
    push_str(&mut s, shell_escape(root).as_str());
    assert(s@ =~= webroot_setup_command_text(user@, root@));
    s
}

/// The command that tells whether a PHP-FPM unit is installed.
pub open spec fn php_unit_check_command_text(svc: Seq<char>) -> Seq<char> {
    "systemctl list-unit-files 2>/dev/null | grep -q '^"@ + svc + "\\.service' && echo yes"@
}

/// The command that tells whether a PHP-FPM unit is installed.
pub fn php_unit_check_command(svc: &str) -> (r: String)
    ensures
        r@ == php_unit_check_command_text(svc@),
{
    let mut s = owned("systemctl list-unit-files 2>/dev/null | grep -q '^");
    push_str(&mut s, svc);
    push_str(&mut s, "\\.service' && echo yes");
    assert(s@ =~= php_unit_check_command_text(svc@));
    s
}

/// The command that gives the socket directory to the web server's user.
pub open spec fn socket_dir_command_text(user: Seq<char>) -> Seq<char> {
    "chown "@ + user + ":"@ + user + " /run/php-fpm 2>/dev/null; chmod 755 /run/php-fpm"@
}

/// The command that gives the socket directory to the web server's user.
pub fn socket_dir_command(user: &str) -> (r: String)
    ensures
        r@ == socket_dir_command_text(user@),
{
    let mut s = owned("chown ");
    push_str(&mut s, user);
    push_str(&mut s, ":");
    push_str(&mut s, user);
    push_str(&mut s, " /run/php-fpm 2>/dev/null; chmod 755 /run/php-fpm");
    assert(s@ =~= socket_dir_command_text(user@));
    s
}

/// The command that enables and restarts a PHP-FPM unit.
pub open spec fn php_restart_command_text(svc: Seq<char>) -> Seq<char> {
    "systemctl enable "@ + shell_quoted(svc) + " 2>/dev/null; systemctl restart "@ + shell_quoted(svc) + " 2>/dev/null"@
}

/// The command that enables and restarts a PHP-FPM unit.
pub fn php_restart_command(svc: &str) -> (r: String)
    ensures
        r@ == php_restart_command_text(svc@),
{
    let mut s = owned("systemctl enable ");
    push_str(&mut s, shell_escape(svc).as_str());
    push_str(&mut s, " 2>/dev/null; systemctl restart ");
    push_str(&mut s, shell_escape(svc).as_str());
    push_str(&mut s, " 2>/dev/null");
    assert(s@ =~= php_restart_command_text(svc@));
    s
}

/// The command that shows the end of a PHP-FPM unit's status.
pub open spec fn php_unit_status_command_text(svc: Seq<char>) -> Seq<char> {
    "systemctl status "@ + shell_quoted(svc) + " --no-pager 2>&1 | tail -20"@
}

/// The command that shows the end of a PHP-FPM unit's status.
pub fn php_unit_status_command(svc: &str) -> (r: String)
    ensures
        r@ == php_unit_status_command_text(svc@),
{
    let mut s = owned("systemctl status ");
    push_str(&mut s, shell_escape(svc).as_str());
    push_str(&mut s, " --no-pager 2>&1 | tail -20");
    assert(s@ =~= php_unit_status_command_text(svc@));
    s
}

/// The command that asks systemd whether a unit is active.
pub open spec fn php_active_command_text(svc: Seq<char>) -> Seq<char> {
    "systemctl is-active "@ + shell_quoted(svc) + " 2>/dev/null"@
}

/// The command that asks systemd whether a unit is active.
pub fn php_active_command(svc: &str) -> (r: String)
    ensures
        r@ == php_active_command_text(svc@),
{
    let mut s = owned("systemctl is-active ");
    push_str(&mut s, shell_escape(svc).as_str());
    push_str(&mut s, " 2>/dev/null");
    assert(s@ =~= php_active_command_text(svc@));
    s
}

/// The line a pool file has when it listens where the panel expects.
pub open spec fn pool_listen_line_text(n: Seq<char>) -> Seq<char> {
    "listen = /run/php-fpm/php"@ + n + ".sock"@
}

/// The line a pool file has when it listens where the panel expects.
pub fn pool_listen_line(n: &str) -> (r: String)
    ensures
        r@ == pool_listen_line_text(n@),
{
    let mut s = owned("listen = /run/php-fpm/php");
    push_str(&mut s, n);
    push_str(&mut s, ".sock");
    assert(s@ =~= pool_listen_line_text(n@));
    s
}

/// The two places a pool file of the PHP build with compact version `n` is
/// looked for: the remi build's pool directory, then the distribution's.
pub open spec fn pool_dirs_of(n: Seq<char>) -> (Seq<char>, Seq<char>) {
    ("/etc/opt/remi/php"@ + n + "/php-fpm.d"@, "/etc/php-fpm.d"@)
}

/// The two pool directories for compact version `n`, in the order tried.
pub fn pool_dirs(n: &str) -> (r: (String, String))
    ensures
        (r.0@, r.1@) == pool_dirs_of(n@),
{
    let mut a = owned("/etc/opt/remi/php");
    push_str(&mut a, n);
    push_str(&mut a, "/php-fpm.d");
    assert(a@ =~= pool_dirs_of(n@).0);
    (a, owned("/etc/php-fpm.d"))
}

/// The pool file in the directory `dir`.
pub fn pool_file(dir: &str) -> (r: String)
    ensures
        r@ == dir@ + "/www.conf"@,
{
    let mut s = owned(dir);
    push_str(&mut s, "/www.conf");
    s
}

/// Whether a pool file's text already has the line the panel expects for
/// compact version `n`.
pub fn pool_listens(conf: &str, n: &str) -> (r: bool)
    ensures
        r == has_sub(conf@, pool_listen_line_text(n@)),
{
    let line = pool_listen_line(n);
    contains_seq(&chars_of(conf), &chars_of(line.as_str()))
}

/// Whether the pool is already set up: one of the pool files read (`None`
/// where there was none to read) has the expected line.
pub fn pool_configured(first: Option<&str>, second: Option<&str>, n: &str) -> (r: bool)
    ensures
        r == ((first matches Some(c) && has_sub(c@, pool_listen_line_text(n@))) || (
        second matches Some(c) && has_sub(c@, pool_listen_line_text(n@)))),
{
    let a = match first {
        Some(c) => pool_listens(c, n),
        None => false,
    };
    if a {
        return true;
    }
    match second {
        Some(c) => pool_listens(c, n),
        None => false,
    }
}

/// The command that deletes a site's directory tree.
pub open spec fn remove_tree_command_text(path: Seq<char>) -> Seq<char> {
    "rm -rf "@ + shell_quoted(path)
}

/// The command that deletes a site's directory tree.
pub fn remove_tree_command(path: &str) -> (r: String)
    ensures
        r@ == remove_tree_command_text(path@),
{
    let mut s = owned("rm -rf ");
    push_str(&mut s, shell_escape(path).as_str());
    assert(s@ =~= remove_tree_command_text(path@));
    s
}

/// The command that lifts a fail2ban ban on an address.
pub open spec fn unban_command_text(ip: Seq<char>) -> Seq<char> {
    "fail2ban-client unban "@ + shell_quoted(ip) + " 2>&1"@
}

/// The command that lifts a fail2ban ban on an address.
pub fn unban_command(ip: &str) -> (r: String)
    ensures
        r@ == unban_command_text(ip@),
{
    let mut s = owned("fail2ban-client unban ");
    push_str(&mut s, shell_escape(ip).as_str());
    push_str(&mut s, " 2>&1");
    assert(s@ =~= unban_command_text(ip@));
    s
}

/// The command that tells whether the `www.` name of a domain resolves.
pub open spec fn www_resolves_command_text(domain: Seq<char>) -> Seq<char> {
    "(getent ahosts www."@ + shell_quoted(domain) + " 2>/dev/null | head -1 | grep -q . || host www."@ + shell_quoted(domain) + " 2>/dev/null | grep -q 'has address') && echo yes"@
}

/// The command that tells whether the `www.` name of a domain resolves.
pub fn www_resolves_command(domain: &str) -> (r: String)
    ensures
        r@ == www_resolves_command_text(domain@),
{
    let mut s = owned("(getent ahosts www.");
    push_str(&mut s, shell_escape(domain).as_str());
    push_str(&mut s, " 2>/dev/null | head -1 | grep -q . || host www.");
    push_str(&mut s, shell_escape(domain).as_str());
    push_str(&mut s, " 2>/dev/null | grep -q 'has address') && echo yes");
    assert(s@ =~= www_resolves_command_text(domain@));
    s
}

/// The command that reads the expiry date of a domain's certificate.
pub open spec fn cert_expiry_command_text(domain: Seq<char>) -> Seq<char> {
    "certbot certificates --cert-name "@ + shell_quoted(domain) + " 2>/dev/null | awk -F': ' '/Expiry Date/ {print $2}' | head -1"@
}

/// The command that reads the expiry date of a domain's certificate.
pub fn cert_expiry_command(domain: &str) -> (r: String)
    ensures
        r@ == cert_expiry_command_text(domain@),
{
    let mut s = owned("certbot certificates --cert-name ");
    push_str(&mut s, shell_escape(domain).as_str());
    push_str(&mut s, " 2>/dev/null | awk -F': ' '/Expiry Date/ {print $2}' | head -1");
    assert(s@ =~= cert_expiry_command_text(domain@));
    s
}

/// The certbot command of a bulk certificate run, for the domain and its `www.` name.
pub open spec fn bulk_cert_command_text(domain: Seq<char>, email: Seq<char>) -> Seq<char> {
    "certbot --nginx -d "@ + shell_quoted(domain) + " -d www."@ + shell_quoted(domain) + " --non-interactive --agree-tos --email "@ + shell_quoted(email) + " 2>&1"@
}

/// The certbot command of a bulk certificate run, for the domain and its `www.` name.
pub fn bulk_cert_command(domain: &str, email: &str) -> (r: String)
    ensures
        r@ == bulk_cert_command_text(domain@, email@),
{
    let mut s = owned("certbot --nginx -d ");
    push_str(&mut s, shell_escape(domain).as_str());
    push_str(&mut s, " -d www.");
    push_str(&mut s, shell_escape(domain).as_str());
    push_str(&mut s, " --non-interactive --agree-tos --email ");
    push_str(&mut s, shell_escape(email).as_str());
    push_str(&mut s, " 2>&1");
    assert(s@ =~= bulk_cert_command_text(domain@, email@));
    s
}

/// The directory of a site's backups.
pub open spec fn backup_dir_text(domain: Seq<char>) -> Seq<char> {
    "/var/www/"@ + domain + "/backups"@
}

/// The directory of a site's backups.
pub fn backup_dir(domain: &str) -> (r: String)
    ensures
        r@ == backup_dir_text(domain@),
{
    let mut s = owned("/var/www/");
    push_str(&mut s, domain);
    push_str(&mut s, "/backups");
    assert(s@ =~= backup_dir_text(domain@));
    s
}

/// The directory of a site.
pub open spec fn site_root_text(domain: Seq<char>) -> Seq<char> {
    "/var/www/"@ + domain
}

/// The directory of a site.
pub fn site_root(domain: &str) -> (r: String)
    ensures
        r@ == site_root_text(domain@),
{
    let mut s = owned("/var/www/");
    push_str(&mut s, domain);
    assert(s@ =~= site_root_text(domain@));
    s
}

/// The archive of a backup taken at time stamp `ts`.
pub open spec fn backup_archive_path_text(dir: Seq<char>, ts: Seq<char>) -> Seq<char> {
    dir + "/backup_"@ + ts + ".tar.gz"@
}

/// The archive of a backup taken at time stamp `ts`.
pub fn backup_archive_path(dir: &str, ts: &str) -> (r: String)
    ensures
        r@ == backup_archive_path_text(dir@, ts@),
{
    let mut s = owned(dir);
    push_str(&mut s, "/backup_");
    push_str(&mut s, ts);
    push_str(&mut s, ".tar.gz");
    assert(s@ =~= backup_archive_path_text(dir@, ts@));
    s
}

/// The database dump of a backup taken at time stamp `ts`.
pub open spec fn backup_dump_path_text(dir: Seq<char>, ts: Seq<char>) -> Seq<char> {
    dir + "/backup_"@ + ts + ".sql"@
}

/// The database dump of a backup taken at time stamp `ts`.
pub fn backup_dump_path(dir: &str, ts: &str) -> (r: String)
    ensures
        r@ == backup_dump_path_text(dir@, ts@),
{
    let mut s = owned(dir);
    push_str(&mut s, "/backup_");
    push_str(&mut s, ts);
    push_str(&mut s, ".sql");
    assert(s@ =~= backup_dump_path_text(dir@, ts@));
    s
}

/// The command that archives a site, leaving out its backups, logs and cache.
pub open spec fn backup_tar_command_text(archive: Seq<char>, root: Seq<char>) -> Seq<char> {
    "tar -czf "@ + shell_quoted(archive) + " -C "@ + shell_quoted(root) + " --exclude='backups' --exclude='logs' --exclude='cache' . 2>&1"@
}

/// The command that archives a site, leaving out its backups, logs and cache.
pub fn backup_tar_command(archive: &str, root: &str) -> (r: String)
    ensures
        r@ == backup_tar_command_text(archive@, root@),
{
    let mut s = owned("tar -czf ");
    push_str(&mut s, shell_escape(archive).as_str());
    push_str(&mut s, " -C ");
    push_str(&mut s, shell_escape(root).as_str());
    push_str(&mut s, " --exclude='backups' --exclude='logs' --exclude='cache' . 2>&1");
    assert(s@ =~= backup_tar_command_text(archive@, root@));
    s
}

/// The command that dumps a database to a file.
pub open spec fn dump_command_text(user: Seq<char>, pass: Seq<char>, db: Seq<char>, file: Seq<char>) -> Seq<char> {
    "mysqldump -u"@ + shell_quoted(user) + " -p"@ + shell_quoted(pass) + " "@ + shell_quoted(db) + " > "@ + shell_quoted(file) + " 2>&1"@
}

/// The command that dumps a database to a file.
pub fn dump_command(user: &str, pass: &str, db: &str, file: &str) -> (r: String)
    ensures
        r@ == dump_command_text(user@, pass@, db@, file@),
{
    let mut s = owned("mysqldump -u");
    push_str(&mut s, shell_escape(user).as_str());
    push_str(&mut s, " -p");
    push_str(&mut s, shell_escape(pass).as_str());
    push_str(&mut s, " ");
    push_str(&mut s, shell_escape(db).as_str());
    push_str(&mut s, " > ");
    push_str(&mut s, shell_escape(file).as_str());
    push_str(&mut s, " 2>&1");
    assert(s@ =~= dump_command_text(user@, pass@, db@, file@));
    s
}

/// The command that lists a site's backups, newest first.
pub open spec fn backup_listing_command_text(dir: Seq<char>) -> Seq<char> {
    "ls -t "@ + shell_quoted(dir) + "/backup_* 2>/dev/null"@
}

/// The command that lists a site's backups, newest first.
pub fn backup_listing_command(dir: &str) -> (r: String)
    ensures
        r@ == backup_listing_command_text(dir@),
{
    let mut s = owned("ls -t ");
    push_str(&mut s, shell_escape(dir).as_str());
    push_str(&mut s, "/backup_* 2>/dev/null");
    assert(s@ =~= backup_listing_command_text(dir@));
    s
}

/// The command that lists a site's backups in long form.
pub open spec fn backup_list_command_text(dir: Seq<char>) -> Seq<char> {
    "ls -lht "@ + shell_quoted(dir) + " 2>/dev/null || echo 'No backups'"@
}

/// The command that lists a site's backups in long form.
pub fn backup_list_command(dir: &str) -> (r: String)
    ensures
        r@ == backup_list_command_text(dir@),
{
    let mut s = owned("ls -lht ");
    push_str(&mut s, shell_escape(dir).as_str());
    push_str(&mut s, " 2>/dev/null || echo 'No backups'");
    assert(s@ =~= backup_list_command_text(dir@));
    s
}

/// The command that copies one site's files into another's directory.
pub open spec fn copy_tree_command_text(src: Seq<char>, dst: Seq<char>) -> Seq<char> {
    "cp -a "@ + shell_quoted(src) + "/* "@ + shell_quoted(dst) + "/ 2>&1 && echo OK"@
}

/// The command that copies one site's files into another's directory.
pub fn copy_tree_command(src: &str, dst: &str) -> (r: String)
    ensures
        r@ == copy_tree_command_text(src@, dst@),
{
    let mut s = owned("cp -a ");
    push_str(&mut s, shell_escape(src).as_str());
    push_str(&mut s, "/* ");
    push_str(&mut s, shell_escape(dst).as_str());
    push_str(&mut s, "/ 2>&1 && echo OK");
    assert(s@ =~= copy_tree_command_text(src@, dst@));
    s
}

/// The command that copies one database into another through a dump.
pub open spec fn copy_database_command_text(src_user: Seq<char>, src_pass: Seq<char>, src_db: Seq<char>, dst_user: Seq<char>, dst_pass: Seq<char>, dst_db: Seq<char>) -> Seq<char> {
    "mysqldump -u"@ + shell_quoted(src_user) + " -p"@ + shell_quoted(src_pass) + " "@ + shell_quoted(src_db) + " | mysql -u"@ + shell_quoted(dst_user) + " -p"@ + shell_quoted(dst_pass) + " "@ + shell_quoted(dst_db) + " 2>&1"@
}

/// The command that copies one database into another through a dump.
pub fn copy_database_command(src_user: &str, src_pass: &str, src_db: &str, dst_user: &str, dst_pass: &str, dst_db: &str) -> (r: String)
    ensures
        r@ == copy_database_command_text(src_user@, src_pass@, src_db@, dst_user@, dst_pass@, dst_db@),
{
    let mut s = owned("mysqldump -u");
    push_str(&mut s, shell_escape(src_user).as_str());
    push_str(&mut s, " -p");
    push_str(&mut s, shell_escape(src_pass).as_str());
    push_str(&mut s, " ");
    push_str(&mut s, shell_escape(src_db).as_str());
    push_str(&mut s, " | mysql -u");
    push_str(&mut s, shell_escape(dst_user).as_str());
    push_str(&mut s, " -p");
    push_str(&mut s, shell_escape(dst_pass).as_str());
    push_str(&mut s, " ");
    push_str(&mut s, shell_escape(dst_db).as_str());
    push_str(&mut s, " 2>&1");
    assert(s@ =~= copy_database_command_text(src_user@, src_pass@, src_db@, dst_user@, dst_pass@, dst_db@));
    s
}

/// The command that points a WordPress configuration at another database.
pub open spec fn wp_db_name_command_text(db: Seq<char>, cfg: Seq<char>) -> Seq<char> {
    "sed -i \"s/define.*DB_NAME.*/define('DB_NAME', '"@ + db + "');/\" "@ + shell_quoted(cfg)
}

/// The command that points a WordPress configuration at another database.
pub fn wp_db_name_command(db: &str, cfg: &str) -> (r: String)
    ensures
        r@ == wp_db_name_command_text(db@, cfg@),
{
    let mut s = owned("sed -i \"s/define.*DB_NAME.*/define('DB_NAME', '");
    push_str(&mut s, db);
    push_str(&mut s, "');/\" ");
    push_str(&mut s, shell_escape(cfg).as_str());
    assert(s@ =~= wp_db_name_command_text(db@, cfg@));
    s
}

/// The command that sets the database user of a WordPress configuration.
pub open spec fn wp_db_user_command_text(user: Seq<char>, cfg: Seq<char>) -> Seq<char> {
    "sed -i \"s/define.*DB_USER.*/define('DB_USER', '"@ + user + "');/\" "@ + shell_quoted(cfg)
}

/// The command that sets the database user of a WordPress configuration.
pub fn wp_db_user_command(user: &str, cfg: &str) -> (r: String)
    ensures
        r@ == wp_db_user_command_text(user@, cfg@),
{
    let mut s = owned("sed -i \"s/define.*DB_USER.*/define('DB_USER', '");
    push_str(&mut s, user);
    push_str(&mut s, "');/\" ");
    push_str(&mut s, shell_escape(cfg).as_str());
    assert(s@ =~= wp_db_user_command_text(user@, cfg@));
    s
}

/// The command that sets the database password of a WordPress configuration.
pub open spec fn wp_db_password_command_text(pass: Seq<char>, cfg: Seq<char>) -> Seq<char> {
    "sed -i \"s/define.*DB_PASSWORD.*/define('DB_PASSWORD', '"@ + pass + "');/\" "@ + shell_quoted(cfg)
}

/// The command that sets the database password of a WordPress configuration.
pub fn wp_db_password_command(pass: &str, cfg: &str) -> (r: String)
    ensures
        r@ == wp_db_password_command_text(pass@, cfg@),
{
    let mut s = owned("sed -i \"s/define.*DB_PASSWORD.*/define('DB_PASSWORD', '");
    push_str(&mut s, pass);
    push_str(&mut s, "');/\" ");
    push_str(&mut s, shell_escape(cfg).as_str());
    assert(s@ =~= wp_db_password_command_text(pass@, cfg@));
    s
}

/// Where a site's phpMyAdmin link lives.
pub open spec fn pma_link_path_text(domain: Seq<char>) -> Seq<char> {
    "/var/www/"@ + domain + "/public_html/phpmyadmin"@
}

/// Where a site's phpMyAdmin link lives.
pub fn pma_link_path(domain: &str) -> (r: String)
    ensures
        r@ == pma_link_path_text(domain@),
{
    let mut s = owned("/var/www/");
    push_str(&mut s, domain);
    push_str(&mut s, "/public_html/phpmyadmin");
    assert(s@ =~= pma_link_path_text(domain@));
    s
}

/// The command that gives a link to the web server's user.
pub open spec fn link_owner_command_text(user: Seq<char>, path: Seq<char>) -> Seq<char> {
    "chown -h "@ + user + ":"@ + user + " "@ + shell_quoted(path)
}

/// The command that gives a link to the web server's user.
pub fn link_owner_command(user: &str, path: &str) -> (r: String)
    ensures
        r@ == link_owner_command_text(user@, path@),
{
    let mut s = owned("chown -h ");
    push_str(&mut s, user);
    push_str(&mut s, ":");
    push_str(&mut s, user);
    push_str(&mut s, " ");
    push_str(&mut s, shell_escape(path).as_str());
    assert(s@ =~= link_owner_command_text(user@, path@));
    s
}

/// The command that shows the end of a package's install log.
pub open spec fn tail_install_log_command_text(pkg_id: Seq<char>) -> Seq<char> {
    "tail -n 80 /var/log/nitpanel/install_"@ + pkg_id + ".log 2>/dev/null || echo 'Chưa có log'"@
}

/// The command that shows the end of a package's install log.
pub fn tail_install_log_command(pkg_id: &str) -> (r: String)
    ensures
        r@ == tail_install_log_command_text(pkg_id@),
{
    let mut s = owned("tail -n 80 /var/log/nitpanel/install_");
    push_str(&mut s, pkg_id);
    push_str(&mut s, ".log 2>/dev/null || echo 'Chưa có log'");
    assert(s@ =~= tail_install_log_command_text(pkg_id@));
    s
}

/// The command that gives one file to the web server's user.
pub open spec fn chown_command_text(user: Seq<char>, path: Seq<char>) -> Seq<char> {
    "chown "@ + user + ":"@ + user + " "@ + shell_quoted(path) + " 2>/dev/null"@
}

/// The command that gives one file to the web server's user.
pub fn chown_command(user: &str, path: &str) -> (r: String)
    ensures
        r@ == chown_command_text(user@, path@),
{
    let mut s = owned("chown ");
    push_str(&mut s, user);
    push_str(&mut s, ":");
    push_str(&mut s, user);
    push_str(&mut s, " ");
    push_str(&mut s, shell_escape(path).as_str());
    push_str(&mut s, " 2>/dev/null");
    assert(s@ =~= chown_command_text(user@, path@));
    s
}

/// The background command that runs the stack script, logging next to the
/// panel's other logs.
pub open spec fn stack_launch_text(script: Seq<char>) -> Seq<char> {
    "nohup bash "@ + shell_quoted(script) + " > /var/log/nitpanel/stack_install.log 2>&1 &"@
}

/// The background command that runs the stack script.
pub fn stack_launch_command(script: &str) -> (r: String)
    ensures
        r@ == stack_launch_text(script@),
{
    let mut s = owned("nohup bash ");
    push_str(&mut s, shell_escape(script).as_str());
    push_str(&mut s, " > /var/log/nitpanel/stack_install.log 2>&1 &");
    assert(s@ =~= stack_launch_text(script@));
    s
}

} // verus!
