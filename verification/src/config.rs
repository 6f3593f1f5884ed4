//! Configuration files and command lines that the panel writes: nginx server
//! blocks, PHP-FPM pools, fail2ban jails and the MySQL client invocation.
use vstd::prelude::*;
use crate::text::{
    has_sub, lemma_has_sub_in_prefix, lemma_has_sub_in_suffix, occurs_at, push_char, push_str,
};
use crate::sanitize::{no_dots, shell_escape, shell_quoted, vn};
use crate::validate::{ip_ok, valid_ip};

verus! {

// ───────────────────────── numbers ─────────────────────────

pub open spec fn digit_char(d: nat) -> char {
    if d == 0 { '0' } else if d == 1 { '1' } else if d == 2 { '2' } else if d == 3 { '3' }
    else if d == 4 { '4' } else if d == 5 { '5' } else if d == 6 { '6' } else if d == 7 { '7' }
    else if d == 8 { '8' } else { '9' }
}

/// The decimal digits of `n`, without leading zeros.
pub open spec fn nat_digits(n: nat) -> Seq<char>
    decreases n,
{
    if n < 10 {
        seq![digit_char(n)]
    } else {
        nat_digits(n / 10).push(digit_char(n % 10))
    }
}

/// `i` written in decimal, as `Display` writes an integer.
pub open spec fn decimal(i: int) -> Seq<char> {
    if i < 0 {
        seq!['-'] + nat_digits((-i) as nat)
    } else {
        nat_digits(i as nat)
    }
}

fn digit(d: u64) -> (c: char)
    requires
        d < 10,
    ensures
        c == digit_char(d as nat),
{
    if d == 0 { '0' } else if d == 1 { '1' } else if d == 2 { '2' } else if d == 3 { '3' }
    else if d == 4 { '4' } else if d == 5 { '5' } else if d == 6 { '6' } else if d == 7 { '7' }
    else if d == 8 { '8' } else { '9' }
}

fn push_digits(s: &mut String, n: u64)
    ensures
        final(s)@ == old(s)@ + nat_digits(n as nat),
    decreases n,
{
    if n >= 10 {
        push_digits(s, n / 10);
    }
    push_char(s, digit(n % 10));
    assert(final(s)@ =~= old(s)@ + nat_digits(n as nat));
}

/// Writes `i` in decimal.
pub fn i64_decimal(i: i64) -> (r: String)
    ensures
        r@ == decimal(i as int),
{
    let mut s = String::new();
    if i < 0 {
        push_char(&mut s, '-');
        let m: i128 = -(i as i128);
        push_digits(&mut s, m as u64);
    } else {
        push_digits(&mut s, i as u64);
    }
    assert(s@ =~= decimal(i as int));
    s
}

// ───────────────────────── the file system, as it is now ─────────────────────────

/// `Path::exists` answered `found` for `path` at some moment. A relation,
/// not a function: the disk changes, so both answers may be on record.
pub uninterp spec fn path_found(path: Seq<char>, found: bool) -> bool;

/// `Path::is_dir` answered `found` for `path` at some moment; a relation
/// like `path_found`.
pub uninterp spec fn dir_found(path: Seq<char>, found: bool) -> bool;

/// Calls `Path::new(p).exists()`. The answer depends on the disk at the time
/// of the call, so all that is promised is that it is the answer given for
/// this path.
#[verifier::external_body]
pub(crate) fn path_exists(p: &str) -> (r: bool)
    ensures
        path_found(p@, r),
{
    std::path::Path::new(p).exists()
}

/// Calls `Path::new(p).is_dir()`; promised like `path_exists`.
#[verifier::external_body]
pub(crate) fn path_is_dir(p: &str) -> (r: bool)
    ensures
        dir_found(p@, r),
{
    std::path::Path::new(p).is_dir()
}

// ───────────────────────── PHP-FPM sockets ─────────────────────────

/// The socket that the panel's own pool file makes PHP `n` listen on.
pub open spec fn panel_socket(n: Seq<char>) -> Seq<char> {
    "/run/php-fpm/php"@ + n + ".sock"@
}

/// The socket of the distribution's default pool for PHP `n`.
pub open spec fn remi_socket(n: Seq<char>) -> Seq<char> {
    "/var/opt/remi/php"@ + n + "/run/php-fpm/www.sock"@
}

/// Which socket to use, given which of the two exist: the panel's own when it
/// exists or neither does, else the distribution's.
pub open spec fn socket_choice(n: Seq<char>, panel_exists: bool, remi_exists: bool) -> Seq<char> {
    if panel_exists || !remi_exists {
        panel_socket(n)
    } else {
        remi_socket(n)
    }
}

/// The panel's own socket path for the PHP build with compact version `n`.
pub fn panel_socket_path(n: &str) -> (r: String)
    ensures
        r@ == panel_socket(n@),
{
    let mut s = String::new();
    push_str(&mut s, "/run/php-fpm/php");
    push_str(&mut s, n);
    push_str(&mut s, ".sock");
    assert(s@ =~= panel_socket(n@));
    s
}

/// The distribution's socket path for the PHP build with compact version `n`.
pub fn remi_socket_path(n: &str) -> (r: String)
    ensures
        r@ == remi_socket(n@),
{
    let mut s = String::new();
    push_str(&mut s, "/var/opt/remi/php");
    push_str(&mut s, n);
    push_str(&mut s, "/run/php-fpm/www.sock");
    assert(s@ =~= remi_socket(n@));
    s
}

/// The socket for PHP version `v` (e.g. "8.4"), given which sockets exist.
pub fn choose_php_socket(v: &str, panel_exists: bool, remi_exists: bool) -> (r: String)
    ensures
        r@ == socket_choice(no_dots(v@), panel_exists, remi_exists),
{
    let n = vn(v);
    if panel_exists || !remi_exists {
        panel_socket_path(n.as_str())
    } else {
        remi_socket_path(n.as_str())
    }
}

/// The answers the disk gave for the two sockets of compact version `n`:
/// the panel's is looked at first, the distribution's only when the panel's
/// is missing.
pub open spec fn sockets_probed(n: Seq<char>, panel_exists: bool, remi_exists: bool) -> bool {
    &&& path_found(panel_socket(n), panel_exists)
    &&& !panel_exists ==> path_found(remi_socket(n), remi_exists)
    &&& panel_exists ==> !remi_exists
}

/// The socket nginx should pass PHP `v` requests to: the panel's own socket
/// if it exists, else the distribution's if that exists, else the panel's.
pub fn php_socket(v: &str) -> (r: String)
    ensures
        exists|panel_exists: bool, remi_exists: bool|
            #[trigger] sockets_probed(no_dots(v@), panel_exists, remi_exists) && r@ == socket_choice(
                no_dots(v@),
                panel_exists,
                remi_exists,
            ),
        r@ == panel_socket(no_dots(v@)) || r@ == remi_socket(no_dots(v@)),
{
    let n = vn(v);
    let custom = panel_socket_path(n.as_str());
    let remi = remi_socket_path(n.as_str());
    let c = path_exists(custom.as_str());
    let r = if c { false } else { path_exists(remi.as_str()) };
    assert(sockets_probed(no_dots(v@), c, r));
    choose_php_socket(v, c, r)
}

/// How many times a new site waits for its PHP-FPM socket to appear.
pub const SOCKET_WAIT_ATTEMPTS: u32 = 20;
/// How long each wait for the socket lasts, in milliseconds.
pub const SOCKET_WAIT_MS: u64 = 250;

/// What to do after looking for a site's PHP-FPM socket.
#[derive(Debug)]
pub enum SocketWait {
    /// A socket is there: use it.
    Found(String),
    /// Neither socket is there yet: wait once more.
    Wait,
    /// Neither socket appeared in time: give up.
    GiveUp,
}

/// After look number `attempt` (counted from 0, each after one wait) for the
/// sockets of PHP `php`: use the socket that exists (the panel's first),
/// else wait again, or give up once the attempts are spent.
pub fn socket_wait_step(php: &str, attempt: u32, panel_exists: bool, remi_exists: bool) -> (r: SocketWait)
    ensures
        panel_exists || remi_exists ==> (r matches SocketWait::Found(s) && s@ == socket_choice(
            no_dots(php@),
            panel_exists,
            remi_exists,
        )),
        !(panel_exists || remi_exists) && attempt + 1 < SOCKET_WAIT_ATTEMPTS ==> r is Wait,
        !(panel_exists || remi_exists) && attempt + 1 >= SOCKET_WAIT_ATTEMPTS ==> r is GiveUp,
{
    if panel_exists || remi_exists {
        SocketWait::Found(choose_php_socket(php, panel_exists, remi_exists))
    } else if attempt >= SOCKET_WAIT_ATTEMPTS - 1 {
        SocketWait::GiveUp
    } else {
        SocketWait::Wait
    }
}

// ───────────────────────── nginx sites ─────────────────────────
/// The nginx server blocks of a site served over HTTPS (port 80 redirects).
/// The line that names a site's TLS private key: its Let's Encrypt key.
pub open spec fn ssl_key_line(domain: Seq<char>) -> Seq<char> {
    r##"    ssl_certificate_key /etc/letsencrypt/live/"##@
        + domain
        + r##"/privkey.pem;
"##@
}

/// The HTTPS server blocks of a site: the port-80 redirect, then the TLS
/// server up to its key line, then the rest.
pub open spec fn vhost_https_text(domain: Seq<char>, root: Seq<char>, sock: Seq<char>) -> Seq<char> {
    https_upto_key(domain, root) + https_after_key(domain, root, sock)
}

/// The HTTPS server blocks of a site up to and including its key line.
pub open spec fn https_upto_key(domain: Seq<char>, root: Seq<char>) -> Seq<char> {
    Seq::<char>::empty()
        + r##"server {
    listen 80;
    listen [::]:80;
    server_name "##@
        + domain
        + r##" www."##@
        + domain
        + r##";
    location /.well-known/acme-challenge/ { root "##@
        + root
        + r##"; allow all; }
    location / { return 301 https://$host$request_uri; }
}
server {
    listen 443 ssl http2;
    listen [::]:443 ssl http2;
    server_name "##@
        + domain
        + r##" www."##@
        + domain
        + r##";
    root "##@
        + root
        + r##";
    index index.php index.html;
    ssl_certificate /etc/letsencrypt/live/"##@
        + domain
        + r##"/fullchain.pem;
"##@
        + ssl_key_line(domain)
}

/// The HTTPS server block after the key line.
pub open spec fn https_after_key(domain: Seq<char>, root: Seq<char>, sock: Seq<char>) -> Seq<char> {
    Seq::<char>::empty()
        + r##"    ssl_protocols TLSv1.2 TLSv1.3;
    ssl_ciphers ECDHE-ECDSA-AES128-GCM-SHA256:ECDHE-RSA-AES128-GCM-SHA256:ECDHE-ECDSA-AES256-GCM-SHA384:ECDHE-RSA-AES256-GCM-SHA384:ECDHE-ECDSA-CHACHA20-POLY1305:ECDHE-RSA-CHACHA20-POLY1305:DHE-RSA-AES128-GCM-SHA256:DHE-RSA-AES256-GCM-SHA384;
    ssl_prefer_server_ciphers off;
    ssl_session_cache shared:SSL:10m;
    ssl_session_timeout 1d;
    ssl_session_tickets off;
    ssl_stapling on;
    ssl_stapling_verify on;
    resolver 1.1.1.1 8.8.8.8 valid=300s;
    resolver_timeout 5s;
    add_header Strict-Transport-Security "max-age=63072000; includeSubDomains" always;
    add_header X-Frame-Options "SAMEORIGIN" always;
    add_header X-Content-Type-Options "nosniff" always;
    add_header X-XSS-Protection "1; mode=block" always;
    add_header Referrer-Policy "strict-origin-when-cross-origin" always;
    add_header Permissions-Policy "geolocation=(), camera=(), microphone=()" always;
    server_tokens off;
    access_log /var/log/nginx/"##@
        + domain
        + r##".access.log;
    error_log  /var/log/nginx/"##@
        + domain
        + r##".error.log warn;
    client_max_body_size 100M;
    location / { try_files $uri $uri/ /index.php?$query_string; }
    location ~ \.php$ {
        try_files $uri =404;
        fastcgi_split_path_info ^(.+\.php)(/.+)$;
        fastcgi_pass unix:"##@
        + sock
        + r##";
        fastcgi_index index.php;
        fastcgi_param SCRIPT_FILENAME $document_root$fastcgi_script_name;
        fastcgi_param HTTPS $https if_not_empty;
        include fastcgi_params;
        fastcgi_read_timeout 300;
        fastcgi_buffer_size 16k;
        fastcgi_buffers 4 16k;
        fastcgi_hide_header X-Powered-By;
        fastcgi_intercept_errors off;
    }
    location ~ /\.(?!well-known) { deny all; return 404; }
    location ~ \.(bak|backup|swp|swo|old|orig|sql|log|env|ini|conf)$ { deny all; return 404; }
    location ~ ~$ { deny all; return 404; }
    location = /xmlrpc.php { deny all; return 404; }
    location = /wp-config.php { deny all; return 404; }

}
"##@
}

/// A site served over HTTPS is given its own Let's Encrypt private key: for
/// every domain, web root and socket, the configuration holds the line
/// `ssl_certificate_key /etc/letsencrypt/live/<domain>/privkey.pem;`.
pub proof fn https_vhost_uses_domain_key(domain: Seq<char>, root: Seq<char>, sock: Seq<char>)
    ensures
        has_sub(
            vhost_text(domain, root, sock, true),
            "ssl_certificate_key /etc/letsencrypt/live/"@ + domain + "/privkey.pem;"@,
        ),
{
    let k1 = "ssl_certificate_key /etc/letsencrypt/live/"@;
    let k2 = "/privkey.pem;"@;
    let t = k1 + domain + k2;
    let line = ssl_key_line(domain);
    reveal_strlit("ssl_certificate_key /etc/letsencrypt/live/");
    reveal_strlit("/privkey.pem;");
    reveal_strlit("    ssl_certificate_key /etc/letsencrypt/live/");
    reveal_strlit("/privkey.pem;\n");
    assert(line.subrange(4, 4 + t.len() as int) =~= t);
    assert(occurs_at(line, t, 4));
    let upto = https_upto_key(domain, root);
    assert(upto.subrange(upto.len() - line.len(), upto.len() as int) =~= line);
    lemma_has_sub_in_suffix(upto, line, t);
    let all = vhost_text(domain, root, sock, true);
    assert(all.subrange(0, upto.len() as int) =~= upto);
    lemma_has_sub_in_prefix(all, upto, t);
}

/// Renders the HTTPS server blocks of a site.
pub fn vhost_https(domain: &str, root: &str, sock: &str) -> (r: String)
    ensures
        r@ == vhost_https_text(domain@, root@, sock@),
{
    let mut s = String::new();
    push_str(&mut s, r##"server {
    listen 80;
    listen [::]:80;
    server_name "##);
    push_str(&mut s, domain);
    push_str(&mut s, r##" www."##);
    push_str(&mut s, domain);
    push_str(&mut s, r##";
    location /.well-known/acme-challenge/ { root "##);
    push_str(&mut s, root);
    push_str(&mut s, r##"; allow all; }
    location / { return 301 https://$host$request_uri; }
}
server {
    listen 443 ssl http2;
    listen [::]:443 ssl http2;
    server_name "##);
    push_str(&mut s, domain);
    push_str(&mut s, r##" www."##);
    push_str(&mut s, domain);
    push_str(&mut s, r##";
    root "##);
    push_str(&mut s, root);
    push_str(&mut s, r##";
    index index.php index.html;
    ssl_certificate /etc/letsencrypt/live/"##);
    push_str(&mut s, domain);
    push_str(&mut s, r##"/fullchain.pem;
"##);
    push_str(&mut s, r##"    ssl_certificate_key /etc/letsencrypt/live/"##);
    push_str(&mut s, domain);
    push_str(&mut s, r##"/privkey.pem;
"##);
    assert(s@ =~= https_upto_key(domain@, root@));
    let ghost upto = s@;
    push_str(&mut s, r##"    ssl_protocols TLSv1.2 TLSv1.3;
    ssl_ciphers ECDHE-ECDSA-AES128-GCM-SHA256:ECDHE-RSA-AES128-GCM-SHA256:ECDHE-ECDSA-AES256-GCM-SHA384:ECDHE-RSA-AES256-GCM-SHA384:ECDHE-ECDSA-CHACHA20-POLY1305:ECDHE-RSA-CHACHA20-POLY1305:DHE-RSA-AES128-GCM-SHA256:DHE-RSA-AES256-GCM-SHA384;
    ssl_prefer_server_ciphers off;
    ssl_session_cache shared:SSL:10m;
    ssl_session_timeout 1d;
    ssl_session_tickets off;
    ssl_stapling on;
    ssl_stapling_verify on;
    resolver 1.1.1.1 8.8.8.8 valid=300s;
    resolver_timeout 5s;
    add_header Strict-Transport-Security "max-age=63072000; includeSubDomains" always;
    add_header X-Frame-Options "SAMEORIGIN" always;
    add_header X-Content-Type-Options "nosniff" always;
    add_header X-XSS-Protection "1; mode=block" always;
    add_header Referrer-Policy "strict-origin-when-cross-origin" always;
    add_header Permissions-Policy "geolocation=(), camera=(), microphone=()" always;
    server_tokens off;
    access_log /var/log/nginx/"##);
    push_str(&mut s, domain);
    push_str(&mut s, r##".access.log;
    error_log  /var/log/nginx/"##);
    push_str(&mut s, domain);
    push_str(&mut s, r##".error.log warn;
    client_max_body_size 100M;
    location / { try_files $uri $uri/ /index.php?$query_string; }
    location ~ \.php$ {
        try_files $uri =404;
        fastcgi_split_path_info ^(.+\.php)(/.+)$;
        fastcgi_pass unix:"##);
    push_str(&mut s, sock);
    push_str(&mut s, r##";
        fastcgi_index index.php;
        fastcgi_param SCRIPT_FILENAME $document_root$fastcgi_script_name;
        fastcgi_param HTTPS $https if_not_empty;
        include fastcgi_params;
        fastcgi_read_timeout 300;
        fastcgi_buffer_size 16k;
        fastcgi_buffers 4 16k;
        fastcgi_hide_header X-Powered-By;
        fastcgi_intercept_errors off;
    }
    location ~ /\.(?!well-known) { deny all; return 404; }
    location ~ \.(bak|backup|swp|swo|old|orig|sql|log|env|ini|conf)$ { deny all; return 404; }
    location ~ ~$ { deny all; return 404; }
    location = /xmlrpc.php { deny all; return 404; }
    location = /wp-config.php { deny all; return 404; }

}
"##);
    assert(s@ =~= upto + https_after_key(domain@, root@, sock@));
    s
}
/// The nginx server block of a site served over plain HTTP.
pub open spec fn vhost_http_text(domain: Seq<char>, root: Seq<char>, sock: Seq<char>) -> Seq<char> {
    Seq::<char>::empty()
        + r##"server {
    listen 80;
    listen [::]:80;
    server_name "##@
        + domain
        + r##" www."##@
        + domain
        + r##";
    root "##@
        + root
        + r##";
    index index.php index.html;
    add_header X-Frame-Options "SAMEORIGIN" always;
    add_header X-Content-Type-Options "nosniff" always;
    add_header X-XSS-Protection "1; mode=block" always;
    add_header Referrer-Policy "strict-origin-when-cross-origin" always;
    add_header Permissions-Policy "geolocation=(), camera=(), microphone=()" always;
    server_tokens off;
    access_log /var/log/nginx/"##@
        + domain
        + r##".access.log;
    error_log  /var/log/nginx/"##@
        + domain
        + r##".error.log warn;
    client_max_body_size 100M;
    location /.well-known/acme-challenge/ { root "##@
        + root
        + r##"; allow all; }
    location / { try_files $uri $uri/ /index.php?$query_string; }
    location ~ \.php$ {
        try_files $uri =404;
        fastcgi_split_path_info ^(.+\.php)(/.+)$;
        fastcgi_pass unix:"##@
        + sock
        + r##";
        fastcgi_index index.php;
        fastcgi_param SCRIPT_FILENAME $document_root$fastcgi_script_name;
        fastcgi_param HTTPS $https if_not_empty;
        include fastcgi_params;
        fastcgi_read_timeout 300;
        fastcgi_buffer_size 16k;
        fastcgi_buffers 4 16k;
        fastcgi_hide_header X-Powered-By;
        fastcgi_intercept_errors off;
    }
    location ~ /\.(?!well-known) { deny all; return 404; }
    location ~ \.(bak|backup|swp|swo|old|orig|sql|log|env|ini|conf)$ { deny all; return 404; }
    location ~ ~$ { deny all; return 404; }
    location = /xmlrpc.php { deny all; return 404; }
    location = /wp-config.php { deny all; return 404; }

}
"##@
}

/// Renders the HTTP server block of a site.
pub fn vhost_http(domain: &str, root: &str, sock: &str) -> (r: String)
    ensures
        r@ == vhost_http_text(domain@, root@, sock@),
{
    let mut s = String::new();
    push_str(&mut s, r##"server {
    listen 80;
    listen [::]:80;
    server_name "##);
    push_str(&mut s, domain);
    push_str(&mut s, r##" www."##);
    push_str(&mut s, domain);
    push_str(&mut s, r##";
    root "##);
    push_str(&mut s, root);
    push_str(&mut s, r##";
    index index.php index.html;
    add_header X-Frame-Options "SAMEORIGIN" always;
    add_header X-Content-Type-Options "nosniff" always;
    add_header X-XSS-Protection "1; mode=block" always;
    add_header Referrer-Policy "strict-origin-when-cross-origin" always;
    add_header Permissions-Policy "geolocation=(), camera=(), microphone=()" always;
    server_tokens off;
    access_log /var/log/nginx/"##);
    push_str(&mut s, domain);
    push_str(&mut s, r##".access.log;
    error_log  /var/log/nginx/"##);
    push_str(&mut s, domain);
    push_str(&mut s, r##".error.log warn;
    client_max_body_size 100M;
    location /.well-known/acme-challenge/ { root "##);
    push_str(&mut s, root);
    push_str(&mut s, r##"; allow all; }
    location / { try_files $uri $uri/ /index.php?$query_string; }
    location ~ \.php$ {
        try_files $uri =404;
        fastcgi_split_path_info ^(.+\.php)(/.+)$;
        fastcgi_pass unix:"##);
    push_str(&mut s, sock);
    push_str(&mut s, r##";
        fastcgi_index index.php;
        fastcgi_param SCRIPT_FILENAME $document_root$fastcgi_script_name;
        fastcgi_param HTTPS $https if_not_empty;
        include fastcgi_params;
        fastcgi_read_timeout 300;
        fastcgi_buffer_size 16k;
        fastcgi_buffers 4 16k;
        fastcgi_hide_header X-Powered-By;
        fastcgi_intercept_errors off;
    }
    location ~ /\.(?!well-known) { deny all; return 404; }
    location ~ \.(bak|backup|swp|swo|old|orig|sql|log|env|ini|conf)$ { deny all; return 404; }
    location ~ ~$ { deny all; return 404; }
    location = /xmlrpc.php { deny all; return 404; }
    location = /wp-config.php { deny all; return 404; }

}
"##);
    s
}
/// The PHP-FPM pool file for the PHP build with compact version `n`, run as `user`.
pub open spec fn pool_conf_text(n: Seq<char>, user: Seq<char>) -> Seq<char> {
    Seq::<char>::empty()
        + r##"[www]
user = "##@
        + user
        + r##"
group = "##@
        + user
        + r##"
listen = /run/php-fpm/php"##@
        + n
        + r##".sock
listen.owner = "##@
        + user
        + r##"
listen.group = "##@
        + user
        + r##"
listen.mode = 0660
pm = ondemand
pm.max_children = 50
pm.process_idle_timeout = 10s
pm.max_requests = 500
php_admin_value[error_log] = /var/log/php"##@
        + n
        + r##"-fpm.log
php_admin_flag[log_errors] = on
php_admin_value[disable_functions] = exec,passthru,shell_exec,system,proc_open,popen,curl_multi_exec,parse_ini_file,show_source
php_admin_value[expose_php] = Off
php_admin_value[allow_url_fopen] = Off
php_admin_value[allow_url_include] = Off
"##@
}

/// Renders the PHP-FPM pool file.
fn pool_conf(n: &str, user: &str) -> (r: String)
    ensures
        r@ == pool_conf_text(n@, user@),
{
    let mut s = String::new();
    push_str(&mut s, r##"[www]
user = "##);
    push_str(&mut s, user);
    push_str(&mut s, r##"
group = "##);
    push_str(&mut s, user);
    push_str(&mut s, r##"
listen = /run/php-fpm/php"##);
    push_str(&mut s, n);
    push_str(&mut s, r##".sock
listen.owner = "##);
    push_str(&mut s, user);
    push_str(&mut s, r##"
listen.group = "##);
    push_str(&mut s, user);
    push_str(&mut s, r##"
listen.mode = 0660
pm = ondemand
pm.max_children = 50
pm.process_idle_timeout = 10s
pm.max_requests = 500
php_admin_value[error_log] = /var/log/php"##);
    push_str(&mut s, n);
    push_str(&mut s, r##"-fpm.log
php_admin_flag[log_errors] = on
php_admin_value[disable_functions] = exec,passthru,shell_exec,system,proc_open,popen,curl_multi_exec,parse_ini_file,show_source
php_admin_value[expose_php] = Off
php_admin_value[allow_url_fopen] = Off
php_admin_value[allow_url_include] = Off
"##);
    s
}
/// The fail2ban jail file, with the numbers already written out.
pub open spec fn jail_conf_text(ban: Seq<char>, find: Seq<char>, retry: Seq<char>, whitelist: Seq<char>) -> Seq<char> {
    jail_head_text(ban, find, retry, whitelist) + jail_tail_text(ban, find, retry)
}

/// The jail file up to and including its SSH jail: the defaults, with the
/// whitelist, then `[sshd]`.
pub open spec fn jail_head_text(ban: Seq<char>, find: Seq<char>, retry: Seq<char>, whitelist: Seq<char>) -> Seq<char> {
    Seq::<char>::empty()
        + r##"[DEFAULT]
bantime  = "##@
        + ban
        + r##"
findtime = "##@
        + find
        + r##"
maxretry = "##@
        + retry
        + r##"
ignoreip = "##@
        + whitelist
        + r##"
backend  = systemd

[sshd]
enabled = true
port    = ssh
logpath = %(sshd_log)s
"##@
}

/// The jail file after its SSH jail: the nginx and panel jails.
pub open spec fn jail_tail_text(ban: Seq<char>, find: Seq<char>, retry: Seq<char>) -> Seq<char> {
    Seq::<char>::empty()
        + r##"
[nginx-http-auth]
enabled  = true
port     = http,https
logpath  = /var/log/nginx/*error.log
maxretry = 3

[nginx-botsearch]
enabled  = true
port     = http,https
logpath  = /var/log/nginx/*access.log
maxretry = 2

[nginx-noscript]
enabled  = true
port     = http,https
filter   = nginx-noscript
logpath  = /var/log/nginx/*access.log
maxretry = 6

[nitpanel-auth]
enabled  = true
port     = 8765
logpath  = /var/log/nitpanel/panel.log
filter   = nitpanel-auth
maxretry = "##@
        + retry
        + r##"
bantime  = "##@
        + ban
        + r##"
findtime = "##@
        + find
        + r##"
"##@
}

/// Renders the fail2ban jail file.
fn jail_conf(ban: &str, find: &str, retry: &str, whitelist: &str) -> (r: String)
    ensures
        r@ == jail_conf_text(ban@, find@, retry@, whitelist@),
{
    let mut s = String::new();
    push_str(&mut s, r##"[DEFAULT]
bantime  = "##);
    push_str(&mut s, ban);
    push_str(&mut s, r##"
findtime = "##);
    push_str(&mut s, find);
    push_str(&mut s, r##"
maxretry = "##);
    push_str(&mut s, retry);
    push_str(&mut s, r##"
ignoreip = "##);
    push_str(&mut s, whitelist);
    push_str(&mut s, r##"
backend  = systemd

[sshd]
enabled = true
port    = ssh
logpath = %(sshd_log)s
"##);
    assert(s@ =~= jail_head_text(ban@, find@, retry@, whitelist@));
    let ghost head = s@;
    push_str(&mut s, r##"
[nginx-http-auth]
enabled  = true
port     = http,https
logpath  = /var/log/nginx/*error.log
maxretry = 3

[nginx-botsearch]
enabled  = true
port     = http,https
logpath  = /var/log/nginx/*access.log
maxretry = 2

[nginx-noscript]
enabled  = true
port     = http,https
filter   = nginx-noscript
logpath  = /var/log/nginx/*access.log
maxretry = 6

[nitpanel-auth]
enabled  = true
port     = 8765
logpath  = /var/log/nitpanel/panel.log
filter   = nitpanel-auth
maxretry = "##);
    push_str(&mut s, retry);
    push_str(&mut s, r##"
bantime  = "##);
    push_str(&mut s, ban);
    push_str(&mut s, r##"
findtime = "##);
    push_str(&mut s, find);
    push_str(&mut s, r##"
"##);
    assert(s@ =~= head + jail_tail_text(ban@, find@, retry@));
    s
}

/// The SSH jail is always on: for every ban time, find time, retry limit
/// and whitelist, the jail file holds `[sshd]` followed by
/// `enabled = true` and `port    = ssh`.
pub proof fn jail_always_protects_ssh(cfg: Fail2banConfig)
    ensures
        has_sub(jail_text(cfg), "[sshd]\nenabled = true\nport    = ssh\n"@),
{
    let ban = decimal(cfg.ban_time as int);
    let find = decimal(cfg.find_time as int);
    let retry = decimal(cfg.max_retry as int);
    let w = ignore_ip_text(cfg.whitelist());
    let t = "[sshd]\nenabled = true\nport    = ssh\n"@;
    let l = "\nbackend  = systemd\n\n[sshd]\nenabled = true\nport    = ssh\nlogpath = %(sshd_log)s\n"@;
    reveal_strlit("[sshd]\nenabled = true\nport    = ssh\n");
    reveal_strlit("\nbackend  = systemd\n\n[sshd]\nenabled = true\nport    = ssh\nlogpath = %(sshd_log)s\n");
    assert(l.subrange(21, 21 + t.len() as int) =~= t);
    assert(occurs_at(l, t, 21));
    let head = jail_head_text(ban, find, retry, w);
    assert(head.subrange(head.len() - l.len(), head.len() as int) =~= l);
    lemma_has_sub_in_suffix(head, l, t);
    let all = jail_text(cfg);
    assert(all.subrange(0, head.len() as int) =~= head);
    lemma_has_sub_in_prefix(all, head, t);
}

/// The nginx server block of the shared phpMyAdmin, served from `share` on 127.0.0.1:8766.
pub open spec fn pma_vhost_text(share: Seq<char>, sock: Seq<char>) -> Seq<char> {
    Seq::<char>::empty()
        + r##"server {
    listen 127.0.0.1:8766;
    server_name _;
    root "##@
        + share
        + r##";
    index index.php;

    auth_basic "NITPANEL phpMyAdmin";
    auth_basic_user_file /etc/nitpanel/pma_htpasswd;

    access_log /var/log/nginx/nitpanel-pma.access.log;
    error_log  /var/log/nginx/nitpanel-pma.error.log warn;
    client_max_body_size 256M;

    add_header X-Frame-Options "SAMEORIGIN" always;
    add_header X-Content-Type-Options "nosniff" always;
    server_tokens off;

    location / { try_files $uri $uri/ =404; }

    location ~ \.php$ {
        try_files $uri =404;
        fastcgi_split_path_info ^(.+\.php)(/.+)$;
        fastcgi_pass unix:"##@
        + sock
        + r##";
        fastcgi_index index.php;
        fastcgi_param SCRIPT_FILENAME $document_root$fastcgi_script_name;
        include fastcgi_params;
        fastcgi_read_timeout 300;
        fastcgi_hide_header X-Powered-By;
    }

    location ~ /\. { deny all; }
}
"##@
}

/// Renders the shared phpMyAdmin server block.
pub fn pma_vhost(share: &str, sock: &str) -> (r: String)
    ensures
        r@ == pma_vhost_text(share@, sock@),
{
    let mut s = String::new();
    push_str(&mut s, r##"server {
    listen 127.0.0.1:8766;
    server_name _;
    root "##);
    push_str(&mut s, share);
    push_str(&mut s, r##";
    index index.php;

    auth_basic "NITPANEL phpMyAdmin";
    auth_basic_user_file /etc/nitpanel/pma_htpasswd;

    access_log /var/log/nginx/nitpanel-pma.access.log;
    error_log  /var/log/nginx/nitpanel-pma.error.log warn;
    client_max_body_size 256M;

    add_header X-Frame-Options "SAMEORIGIN" always;
    add_header X-Content-Type-Options "nosniff" always;
    server_tokens off;

    location / { try_files $uri $uri/ =404; }

    location ~ \.php$ {
        try_files $uri =404;
        fastcgi_split_path_info ^(.+\.php)(/.+)$;
        fastcgi_pass unix:"##);
    push_str(&mut s, sock);
    push_str(&mut s, r##";
        fastcgi_index index.php;
        fastcgi_param SCRIPT_FILENAME $document_root$fastcgi_script_name;
        include fastcgi_params;
        fastcgi_read_timeout 300;
        fastcgi_hide_header X-Powered-By;
    }

    location ~ /\. { deny all; }
}
"##);
    s
}
/// The fail2ban filter that matches failed panel logins.
pub open spec fn panel_filter_text() -> Seq<char> {
    r##"[Definition]
failregex = Failed login attempt .* from <HOST>
            Login blocked for IP <HOST>
            IP <HOST> locked after
ignoreregex =
"##@
}

/// The fail2ban filter that matches script probes in nginx access logs.
pub open spec fn noscript_filter_text() -> Seq<char> {
    r##"[Definition]
failregex = ^<HOST> -.*GET.*(\.php|\.asp|\.exe|\.pl|\.cgi|\.scgi)
ignoreregex =
"##@
}

/// The fail2ban filter for failed panel logins.
pub fn f2b_nitpanel_filter() -> (r: &'static str)
    ensures
        r@ == panel_filter_text(),
{
    r##"[Definition]
failregex = Failed login attempt .* from <HOST>
            Login blocked for IP <HOST>
            IP <HOST> locked after
ignoreregex =
"##
}

/// The fail2ban filter for script probes.
pub fn f2b_noscript_filter() -> (r: &'static str)
    ensures
        r@ == noscript_filter_text(),
{
    r##"[Definition]
failregex = ^<HOST> -.*GET.*(\.php|\.asp|\.exe|\.pl|\.cgi|\.scgi)
ignoreregex =
"##
}

/// The server configuration of a site.
pub open spec fn vhost_text(domain: Seq<char>, root: Seq<char>, sock: Seq<char>, ssl: bool) -> Seq<char> {
    if ssl {
        vhost_https_text(domain, root, sock)
    } else {
        vhost_http_text(domain, root, sock)
    }
}

/// Renders the server configuration of a site whose PHP runs behind `sock`.
pub fn render_vhost(domain: &str, root: &str, sock: &str, ssl: bool) -> (r: String)
    ensures
        r@ == vhost_text(domain@, root@, sock@, ssl),
{
    if ssl {
        vhost_https(domain, root, sock)
    } else {
        vhost_http(domain, root, sock)
    }
}

/// The nginx configuration of a site running PHP `php`, given which of the
/// version's two sockets exist. The phpMyAdmin flag is accepted and has no
/// effect (phpMyAdmin is linked into the web root instead).
pub open spec fn vhost_config(
    domain: Seq<char>,
    root: Seq<char>,
    php: Seq<char>,
    ssl: bool,
    pma: bool,
    panel_exists: bool,
    remi_exists: bool,
) -> Seq<char> {
    vhost_text(domain, root, socket_choice(no_dots(php), panel_exists, remi_exists), ssl)
}

/// The nginx configuration of a site, given which sockets exist.
pub fn make_vhost_at(
    domain: &str,
    root: &str,
    php: &str,
    ssl: bool,
    pma: bool,
    panel_exists: bool,
    remi_exists: bool,
) -> (r: String)
    ensures
        r@ == vhost_config(domain@, root@, php@, ssl, pma, panel_exists, remi_exists),
{
    let sock = choose_php_socket(php, panel_exists, remi_exists);
    render_vhost(domain, root, sock.as_str(), ssl)
}

/// The nginx configuration of a site running PHP `php`; `pma` has no effect
/// (phpMyAdmin is linked into the web root instead).
pub fn make_vhost(domain: &str, root: &str, php: &str, ssl: bool, pma: bool) -> (r: String)
    ensures
        exists|panel_exists: bool, remi_exists: bool|
            #[trigger] sockets_probed(no_dots(php@), panel_exists, remi_exists) && r@ == vhost_config(
                domain@,
                root@,
                php@,
                ssl,
                pma,
                panel_exists,
                remi_exists,
            ),
        r@ == vhost_text(domain@, root@, panel_socket(no_dots(php@)), ssl) || r@ == vhost_text(
            domain@,
            root@,
            remi_socket(no_dots(php@)),
            ssl,
        ),
{
    let n = vn(php);
    let custom = panel_socket_path(n.as_str());
    let remi = remi_socket_path(n.as_str());
    let c = path_exists(custom.as_str());
    let r = if c { false } else { path_exists(remi.as_str()) };
    assert(sockets_probed(no_dots(php@), c, r));
    make_vhost_at(domain, root, php, ssl, pma, c, r)
}

/// The phpMyAdmin flag never changes a site's nginx configuration: with the
/// same sockets on disk, both values give the same text.
pub proof fn vhost_ignores_pma(
    domain: Seq<char>,
    root: Seq<char>,
    php: Seq<char>,
    ssl: bool,
    panel_exists: bool,
    remi_exists: bool,
)
    ensures
        vhost_config(domain, root, php, ssl, true, panel_exists, remi_exists) == vhost_config(
            domain,
            root,
            php,
            ssl,
            false,
            panel_exists,
            remi_exists,
        ),
{
}

// ───────────────────────── PHP-FPM pools ─────────────────────────

/// The pool file for PHP `v`, run as `user`.
pub fn php_fpm_pool_conf(v: &str, user: &str) -> (r: String)
    ensures
        r@ == pool_conf_text(no_dots(v@), user@),
{
    let n = vn(v);
    pool_conf(n.as_str(), user)
}

// ───────────────────────── fail2ban ─────────────────────────

/// The fail2ban settings the panel keeps.
#[derive(Clone)]
pub struct Fail2banConfig {
    pub enabled: bool,
    pub ban_time: i64,
    pub find_time: i64,
    pub max_retry: i32,
    pub whitelist_ips: Vec<String>,
}

impl Fail2banConfig {
    pub open spec fn whitelist(&self) -> Seq<Seq<char>> {
        self.whitelist_ips@.map_values(|s: String| s@)
    }
}

/// The entries of `ips` that are valid IP entries, in order.
pub open spec fn valid_ips(ips: Seq<Seq<char>>) -> Seq<Seq<char>>
    decreases ips.len(),
{
    if ips.len() == 0 {
        Seq::empty()
    } else if ip_ok(ips.last()) {
        valid_ips(ips.drop_last()).push(ips.last())
    } else {
        valid_ips(ips.drop_last())
    }
}

/// The words of `ws` separated by single spaces.
pub open spec fn join_spaced(ws: Seq<Seq<char>>) -> Seq<char>
    decreases ws.len(),
{
    if ws.len() == 0 {
        Seq::empty()
    } else if ws.len() == 1 {
        ws[0]
    } else {
        join_spaced(ws.drop_last()) + seq![' '] + ws.last()
    }
}

/// The `ignoreip` value: loopback, then the valid whitelist entries.
pub open spec fn ignore_ip_text(ips: Seq<Seq<char>>) -> Seq<char> {
    if ips.len() == 0 {
        "127.0.0.1/8 ::1"@
    } else {
        "127.0.0.1/8 ::1 "@ + join_spaced(valid_ips(ips))
    }
}

/// The jail file for `cfg`.
pub open spec fn jail_text(cfg: Fail2banConfig) -> Seq<char> {
    jail_conf_text(
        decimal(cfg.ban_time as int),
        decimal(cfg.find_time as int),
        decimal(cfg.max_retry as int),
        ignore_ip_text(cfg.whitelist()),
    )
}

fn ignore_ip(ips: &Vec<String>) -> (r: String)
    ensures
        r@ == ignore_ip_text(ips@.map_values(|s: String| s@)),
{
    let ghost w = ips@.map_values(|s: String| s@);
    if ips.len() == 0 {
        let mut s = String::new();
        push_str(&mut s, "127.0.0.1/8 ::1");
        assert(s@ =~= "127.0.0.1/8 ::1"@);
        return s;
    }
    let mut joined = String::new();
    let mut count: usize = 0;
    let mut i: usize = 0;
    while i < ips.len()
        invariant
            i <= ips.len(),
            w == ips@.map_values(|s: String| s@),
            joined@ == join_spaced(valid_ips(w.take(i as int))),
            count == valid_ips(w.take(i as int)).len(),
            count <= i,
        decreases ips.len() - i,
    {
        let ghost prev = valid_ips(w.take(i as int));
        assert(w.take(i + 1).drop_last() =~= w.take(i as int));
        assert(w.take(i + 1).last() == ips@[i as int]@);
        if valid_ip(ips[i].as_str()) {
            if count > 0 {
                push_char(&mut joined, ' ');
            }
            push_str(&mut joined, ips[i].as_str());
            assert(valid_ips(w.take(i + 1)) == prev.push(ips@[i as int]@));
            let ghost next = prev.push(ips@[i as int]@);
            assert(next.drop_last() =~= prev);
            if count == 0 {
                assert(joined@ =~= join_spaced(next));
            } else {
                assert(joined@ =~= join_spaced(next));
            }
            count += 1;
        }
        i += 1;
    }
    assert(w.take(ips.len() as int) =~= w);
    let mut s = String::new();
    push_str(&mut s, "127.0.0.1/8 ::1 ");
    push_str(&mut s, joined.as_str());
    assert(s@ =~= ignore_ip_text(w));
    s
}

/// The fail2ban jail file for `cfg`; invalid whitelist entries are dropped.
pub fn f2b_jail_conf(cfg: &Fail2banConfig) -> (r: String)
    ensures
        r@ == jail_text(*cfg),
{
    let b = i64_decimal(cfg.ban_time);
    let f = i64_decimal(cfg.find_time);
    let m = i64_decimal(cfg.max_retry as i64);
    let w = ignore_ip(&cfg.whitelist_ips);
    jail_conf(b.as_str(), f.as_str(), m.as_str(), w.as_str())
}

// ───────────────────────── shared phpMyAdmin ─────────────────────────

/// Where phpMyAdmin is installed, given which of the two usual directories
/// exist: the first that does.
pub open spec fn pma_share_of(upper_is_dir: bool, lower_is_dir: bool) -> Option<Seq<char>> {
    if upper_is_dir {
        Some("/usr/share/phpMyAdmin"@)
    } else if lower_is_dir {
        Some("/usr/share/phpmyadmin"@)
    } else {
        None
    }
}

/// `o` with its text taken by view.
pub open spec fn str_opt_view(o: Option<&str>) -> Option<Seq<char>> {
    match o {
        Some(s) => Some(s@),
        None => None,
    }
}

/// Where phpMyAdmin is installed, given which of the two usual directories
/// exist: the first that does.
pub fn pma_share_choice(upper_is_dir: bool, lower_is_dir: bool) -> (r: Option<&'static str>)
    ensures
        str_opt_view(r) == pma_share_of(upper_is_dir, lower_is_dir),
{
    if upper_is_dir {
        Some("/usr/share/phpMyAdmin")
    } else if lower_is_dir {
        Some("/usr/share/phpmyadmin")
    } else {
        None
    }
}

/// Where phpMyAdmin is installed, if it is: the first of the two usual
/// directories that exists.
pub fn pma_share_path() -> (r: Option<&'static str>)
    ensures
        exists|upper: bool, lower: bool|
            #[trigger] dir_found("/usr/share/phpMyAdmin"@, upper) && #[trigger] dir_found(
                "/usr/share/phpmyadmin"@,
                lower,
            ) && str_opt_view(r) == pma_share_of(upper, lower),
{
    let upper = path_is_dir("/usr/share/phpMyAdmin");
    let lower = path_is_dir("/usr/share/phpmyadmin");
    pma_share_choice(upper, lower)
}

/// Where the shared phpMyAdmin server block is written.
pub open spec fn pma_vhost_path() -> Seq<char> {
    "/etc/nginx/conf.d/nitpanel-pma.conf"@
}

/// Whether the shared phpMyAdmin server block is installed: the answer the
/// disk gives for its file.
pub fn pma_enabled() -> (r: bool)
    ensures
        path_found(pma_vhost_path(), r),
{
    path_exists("/etc/nginx/conf.d/nitpanel-pma.conf")
}

/// PHP versions tried, newest first, for the shared phpMyAdmin.
pub open spec fn pma_php_versions() -> Seq<Seq<char>> {
    seq!["8.4"@, "8.3"@, "8.2"@, "8.1"@, "8.0"@, "7.4"@]
}

fn pma_php_version(i: usize) -> (v: &'static str)
    requires
        i < 6,
    ensures
        v@ == pma_php_versions()[i as int],
{
    if i == 0 { "8.4" } else if i == 1 { "8.3" } else if i == 2 { "8.2" } else if i == 3 { "8.1" }
    else if i == 4 { "8.0" } else { "7.4" }
}

/// `i` is the first index at which `present` holds.
pub open spec fn first_true_at(present: Seq<bool>, i: int) -> bool {
    0 <= i < present.len() && present[i] && forall|k: int| 0 <= k < i ==> !#[trigger] present[k]
}

/// The index of the first `true` in `present`, if there is one.
pub fn first_present(present: &Vec<bool>) -> (r: Option<usize>)
    ensures
        match r {
            Some(i) => first_true_at(present@, i as int),
            None => forall|k: int| 0 <= k < present@.len() ==> !#[trigger] present@[k],
        },
{
    let mut i: usize = 0;
    while i < present.len()
        invariant
            i <= present.len(),
            forall|k: int| 0 <= k < i ==> !#[trigger] present@[k],
        decreases present.len() - i,
    {
        if present[i] {
            return Some(i);
        }
        i += 1;
    }
    None
}

/// The socket the shared phpMyAdmin uses, given the candidate socket of each
/// PHP version (newest first) and which of them exist: the first that
/// exists, else PHP 8.4's panel socket.
pub open spec fn pma_socket_chosen(socks: Seq<Seq<char>>, present: Seq<bool>) -> Seq<char> {
    if exists|i: int| first_true_at(present, i) {
        socks[choose|i: int| first_true_at(present, i)]
    } else {
        panel_socket("84"@)
    }
}

/// Only one index is the first `true`.
pub proof fn lemma_first_true_unique(present: Seq<bool>, i: int, j: int)
    requires
        first_true_at(present, i),
        first_true_at(present, j),
    ensures
        i == j,
{
    if i < j {
        assert(!present[i]);
    } else if j < i {
        assert(!present[j]);
    }
}

/// The shared phpMyAdmin server block, given each version's candidate socket
/// and which of them exist.
pub fn pma_vhost_choice(share: &str, socks: &Vec<String>, present: &Vec<bool>) -> (r: String)
    requires
        socks.len() == present.len(),
    ensures
        r@ == pma_vhost_text(share@, pma_socket_chosen(views_of(socks@), present@)),
{
    match first_present(present) {
        Some(i) => {
            proof {
                let j = choose|j: int| first_true_at(present@, j);
                lemma_first_true_unique(present@, i as int, j);
            }
            pma_vhost(share, socks[i].as_str())
        },
        None => {
            let d = panel_socket_path("84");
            proof {
                reveal_strlit("84");
            }
            pma_vhost(share, d.as_str())
        },
    }
}

/// The views of a vector of strings.
pub open spec fn views_of(v: Seq<String>) -> Seq<Seq<char>> {
    v.map_values(|s: String| s@)
}

/// The candidate socket of each phpMyAdmin PHP version: the panel's or the
/// distribution's.
pub open spec fn pma_candidates(socks: Seq<Seq<char>>) -> bool {
    &&& socks.len() == pma_php_versions().len()
    &&& forall|i: int|
        0 <= i < socks.len() ==> (#[trigger] socks[i] == panel_socket(no_dots(pma_php_versions()[i]))
            || socks[i] == remi_socket(no_dots(pma_php_versions()[i])))
}

/// The shared phpMyAdmin server block, with the socket of the newest PHP
/// whose socket exists (PHP 8.4's panel socket if none does).
pub fn make_pma_vhost(share: &str) -> (r: String)
    ensures
        exists|socks: Seq<Seq<char>>, present: Seq<bool>|
            {
                &&& pma_candidates(socks) && present.len() == socks.len()
                &&& forall|i: int| 0 <= i < socks.len() ==> path_found(socks[i], #[trigger] present[i])
                &&& r@ == pma_vhost_text(share@, pma_socket_chosen(socks, present))
            },
{
    let mut socks: Vec<String> = Vec::new();
    let mut present: Vec<bool> = Vec::new();
    let mut i: usize = 0;
    while i < 6
        invariant
            i <= 6,
            socks.len() == i,
            present.len() == i,
            forall|k: int|
                0 <= k < i ==> (#[trigger] socks@[k]@ == panel_socket(no_dots(pma_php_versions()[k]))
                    || socks@[k]@ == remi_socket(no_dots(pma_php_versions()[k]))),
            forall|k: int| 0 <= k < i ==> path_found(socks@[k]@, #[trigger] present@[k]),
        decreases 6 - i,
    {
        let v = pma_php_version(i);
        let sock = php_socket(v);
        let here = path_exists(sock.as_str());
        socks.push(sock);
        present.push(here);
        i += 1;
    }
    let r = pma_vhost_choice(share, &socks, &present);
    assert(pma_candidates(views_of(socks@)));
    assert(forall|k: int| 0 <= k < socks@.len() ==> path_found(views_of(socks@)[k], #[trigger] present@[k]));
    r
}

// ───────────────────────── MySQL ─────────────────────────

/// The MySQL client option file that holds the root password.
pub open spec fn root_cnf_path() -> Seq<char> {
    "/etc/nitpanel/mysql_root.cnf"@
}

/// The command that pipes `sql` into the MySQL client, as root: through the
/// panel's option file when it exists, else through socket authentication.
pub open spec fn mysql_cmd_text(sql: Seq<char>, has_root_cnf: bool) -> Seq<char> {
    if has_root_cnf {
        "printf %s "@ + shell_quoted(sql) + " | mysql --defaults-extra-file="@ + shell_quoted(
            root_cnf_path(),
        ) + " 2>&1"@
    } else {
        "printf %s "@ + shell_quoted(sql) + " | mysql -uroot 2>&1"@
    }
}

/// The MySQL command for `sql`, given whether the root option file exists.
pub fn mysql_cmd_with(sql: &str, has_root_cnf: bool) -> (r: String)
    ensures
        r@ == mysql_cmd_text(sql@, has_root_cnf),
{
    let q = shell_escape(sql);
    let mut s = String::new();
    push_str(&mut s, "printf %s ");
    push_str(&mut s, q.as_str());
    if has_root_cnf {
        let c = shell_escape("/etc/nitpanel/mysql_root.cnf");
        push_str(&mut s, " | mysql --defaults-extra-file=");
        push_str(&mut s, c.as_str());
        push_str(&mut s, " 2>&1");
    } else {
        push_str(&mut s, " | mysql -uroot 2>&1");
    }
    assert(s@ =~= mysql_cmd_text(sql@, has_root_cnf));
    s
}

/// The shell command that runs `sql` as the MySQL root user; the SQL goes in
/// on standard input so that no password shows on a command line.
pub fn mysql_cmd(sql: &str) -> (r: String)
    ensures
        exists|has_root_cnf: bool|
            #[trigger] path_found(root_cnf_path(), has_root_cnf) && r@ == mysql_cmd_text(
                sql@,
                has_root_cnf,
            ),
        r@ == mysql_cmd_text(sql@, true) || r@ == mysql_cmd_text(sql@, false),
{
    proof {
        reveal_strlit("/etc/nitpanel/mysql_root.cnf");
    }
    let has = path_exists("/etc/nitpanel/mysql_root.cnf");
    assert(path_found(root_cnf_path(), has));
    mysql_cmd_with(sql, has)
}

} // verus!
