use nitpanel::config::{
    choose_php_socket, f2b_jail_conf, f2b_nitpanel_filter, f2b_noscript_filter, i64_decimal,
    make_pma_vhost, make_vhost, mysql_cmd, mysql_cmd_with, panel_socket_path, php_fpm_pool_conf,
    first_present, make_vhost_at, php_socket, pma_enabled, pma_share_choice, pma_share_path,
    pma_vhost, pma_vhost_choice, remi_socket_path, render_vhost, Fail2banConfig,
};

fn cfg(ban: i64, find: i64, retry: i32, ips: &[&str]) -> Fail2banConfig {
    Fail2banConfig {
        enabled: true,
        ban_time: ban,
        find_time: find,
        max_retry: retry,
        whitelist_ips: ips.iter().map(|s| s.to_string()).collect(),
    }
}

#[test]
fn socket_choice() {
    assert_eq!(choose_php_socket("8.4", false, false), "/run/php-fpm/php84.sock");
    assert_eq!(choose_php_socket("8.4", true, true), "/run/php-fpm/php84.sock");
    assert_eq!(
        choose_php_socket("8.4", false, true),
        "/var/opt/remi/php84/run/php-fpm/www.sock"
    );
    assert_eq!(panel_socket_path("74"), "/run/php-fpm/php74.sock");
    assert_eq!(remi_socket_path("74"), "/var/opt/remi/php74/run/php-fpm/www.sock");
}

#[test]
fn socket_on_this_machine_is_one_of_two() {
    let s = php_socket("8.3");
    assert!(s == "/run/php-fpm/php83.sock" || s == "/var/opt/remi/php83/run/php-fpm/www.sock");
}

#[test]
fn plain_site_config() {
    let c = render_vhost("example.com", "/var/www/example.com/public_html", "/run/php-fpm/php84.sock", false);
    assert!(c.starts_with("server {\n    listen 80;\n    listen [::]:80;\n    server_name example.com www.example.com;\n    root /var/www/example.com/public_html;\n"));
    assert!(c.contains("fastcgi_pass unix:/run/php-fpm/php84.sock;"));
    assert!(!c.contains("ssl_certificate"));
}

#[test]
fn https_site_config() {
    let c = render_vhost("example.com", "/var/www/example.com/public_html", "/run/php-fpm/php84.sock", true);
    assert!(c.contains("/etc/letsencrypt/live/example.com/fullchain.pem"));
    assert!(c.contains("fastcgi_pass unix:/run/php-fpm/php84.sock;"));
    assert!(c.contains("return 301 https://"));
}

#[test]
fn site_config_on_this_machine() {
    let c = make_vhost("example.com", "/var/www/example.com/public_html", "8.4", false, true);
    let a = render_vhost("example.com", "/var/www/example.com/public_html", "/run/php-fpm/php84.sock", false);
    let b = render_vhost(
        "example.com",
        "/var/www/example.com/public_html",
        "/var/opt/remi/php84/run/php-fpm/www.sock",
        false,
    );
    assert!(c == a || c == b);
}

#[test]
fn pool_file() {
    let p = php_fpm_pool_conf("8.4", "nginx");
    assert!(p.starts_with("[www]\nuser = nginx\ngroup = nginx\nlisten = /run/php-fpm/php84.sock\nlisten.owner = nginx\nlisten.group = nginx\nlisten.mode = 0660\n"));
    assert!(p.contains("php_admin_value[error_log] = /var/log/php84-fpm.log\n"));
    assert!(p.ends_with("php_admin_value[allow_url_include] = Off\n"));
}

#[test]
fn decimal_numbers() {
    assert_eq!(i64_decimal(0), "0");
    assert_eq!(i64_decimal(-1), "-1");
    assert_eq!(i64_decimal(3600), "3600");
    assert_eq!(i64_decimal(i64::MIN), "-9223372036854775808");
    assert_eq!(i64_decimal(i64::MAX), "9223372036854775807");
}

#[test]
fn jail_file() {
    let j = f2b_jail_conf(&cfg(3600, 600, 5, &["1.2.3.4", "bad ip", "10.0.0.0/8"]));
    assert!(j.starts_with("[DEFAULT]\nbantime  = 3600\nfindtime = 600\nmaxretry = 5\nignoreip = 127.0.0.1/8 ::1 1.2.3.4 10.0.0.0/8\nbackend  = systemd\n"));
    assert!(j.ends_with("maxretry = 5\nbantime  = 3600\nfindtime = 600\n"));
    let k = f2b_jail_conf(&cfg(-1, 60, 1, &[]));
    assert!(k.contains("bantime  = -1\n"));
    assert!(k.contains("ignoreip = 127.0.0.1/8 ::1\n"));
    let only_bad = f2b_jail_conf(&cfg(1, 60, 1, &["x y"]));
    assert!(only_bad.contains("ignoreip = 127.0.0.1/8 ::1 \n"));
}

#[test]
fn filters() {
    assert_eq!(
        f2b_nitpanel_filter(),
        "[Definition]\nfailregex = Failed login attempt .* from <HOST>\n            Login blocked for IP <HOST>\n            IP <HOST> locked after\nignoreregex =\n"
    );
    assert!(f2b_noscript_filter().starts_with("[Definition]\nfailregex = ^<HOST> -.*GET.*"));
}

#[test]
fn mysql_commands() {
    assert_eq!(
        mysql_cmd_with("SELECT 1;", true),
        "printf %s 'SELECT 1;' | mysql --defaults-extra-file='/etc/nitpanel/mysql_root.cnf' 2>&1"
    );
    assert_eq!(mysql_cmd_with("SELECT 1;", false), "printf %s 'SELECT 1;' | mysql -uroot 2>&1");
    let c = mysql_cmd("SELECT 1;");
    assert!(c == mysql_cmd_with("SELECT 1;", true) || c == mysql_cmd_with("SELECT 1;", false));
}

#[test]
fn shared_phpmyadmin_block() {
    let v = pma_vhost("/usr/share/phpMyAdmin", "/run/php-fpm/php84.sock");
    assert!(v.starts_with("server {\n    listen 127.0.0.1:8766;\n    server_name _;\n    root /usr/share/phpMyAdmin;\n"));
    assert!(v.contains("auth_basic_user_file /etc/nitpanel/pma_htpasswd;"));
    assert!(v.contains("fastcgi_pass unix:/run/php-fpm/php84.sock;"));
    let m = make_pma_vhost("/usr/share/phpMyAdmin");
    assert!(m.contains("root /usr/share/phpMyAdmin;"));
    assert_eq!(pma_share_choice(true, true), Some("/usr/share/phpMyAdmin"));
    assert_eq!(pma_share_choice(false, true), Some("/usr/share/phpmyadmin"));
    assert_eq!(pma_share_choice(false, false), None);
    assert_eq!(first_present(&vec![false, true, true]), Some(1));
    assert_eq!(first_present(&vec![false, false]), None);
    let socks: Vec<String> = ["84", "83"].iter().map(|n| panel_socket_path(n)).collect();
    let chosen = pma_vhost_choice("/s", &socks, &vec![false, true]);
    assert!(chosen.contains("fastcgi_pass unix:/run/php-fpm/php83.sock;"));
    let fallback = pma_vhost_choice("/s", &socks, &vec![false, false]);
    assert!(fallback.contains("fastcgi_pass unix:/run/php-fpm/php84.sock;"));
    match pma_share_path() {
        Some(p) => assert!(p == "/usr/share/phpMyAdmin" || p == "/usr/share/phpmyadmin"),
        None => {}
    }
    let _ = pma_enabled();
}

#[test]
fn vhost_pma_flag_changes_nothing() {
    for (p, r) in [(true, false), (false, true), (false, false)] {
        let a = make_vhost_at("a.com", "/var/www/a.com/public_html", "8.3", false, true, p, r);
        let b = make_vhost_at("a.com", "/var/www/a.com/public_html", "8.3", false, false, p, r);
        assert_eq!(a, b);
    }
    let remi = make_vhost_at("a.com", "/r", "8.3", true, false, false, true);
    assert!(remi.contains("/var/opt/remi/php83/run/php-fpm/www.sock"));
}
