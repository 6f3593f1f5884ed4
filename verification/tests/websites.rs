use nitpanel::sites::{
    add_site, both_attempts, certbot_email, certbot_nginx_command, certbot_webroot_command,
    check_clone, check_new_site, clone_db_name, clone_db_plan, clone_db_sql, clone_note, cloned_site,
    create_db_sql, creds_note, creds_path, drop_db_sql, drop_plan, expiry_of, find_site,
    landing_page, mark_certificate, mark_ssl, mysql_version_supported, new_site,
    normalize_domain, php_service_name, php_version_supported, plan_site_database,
    redis_assignments, remove_site, renew_command, renew_cron, root_cnf_text, root_password_sql,
    set_phpmyadmin, set_ssl_expiry, site_exists, ssl_email_acceptable, ssl_failure,
    ssl_failure_message, vhost_path, CloneError, NewSiteError, SslFailure, Website,
};
use nitpanel::parse::{parse_db_creds, parse_mysql_root_pass};
use nitpanel::validate::valid_ident;

fn site(domain: &str) -> Website {
    new_site(
        format!("id-{}", domain),
        domain.to_string(),
        "8.4".to_string(),
        "9.0".to_string(),
        Some((format!("{}_db", domain.replace('.', "_")), "u_x".to_string())),
        format!("/var/www/{}/public_html", domain),
        "2024-01-01 00:00:00".to_string(),
    )
}

fn domains(v: &Vec<Website>) -> Vec<String> {
    v.iter().map(|w| w.domain.clone()).collect()
}

#[test]
fn versions() {
    for v in ["7.4", "8.0", "8.1", "8.2", "8.3", "8.4"] {
        assert!(php_version_supported(v));
    }
    assert!(!php_version_supported("5.6"));
    assert!(!php_version_supported("8.4 "));
    assert!(mysql_version_supported("8.4"));
    assert!(mysql_version_supported("9.0"));
    assert!(!mysql_version_supported("8.0"));
}

#[test]
fn new_site_checks_in_order() {
    let sites = vec![site("a.com")];
    assert_eq!(check_new_site(&sites, "  Example.COM ", "8.4", "9.0"), Ok("example.com".to_string()));
    assert_eq!(check_new_site(&sites, "bad_domain", "5.6", "1.0"), Err(NewSiteError::InvalidDomain));
    assert_eq!(check_new_site(&sites, "b.com", "5.6", "1.0"), Err(NewSiteError::BadPhpVersion));
    assert_eq!(check_new_site(&sites, "b.com", "8.4", "1.0"), Err(NewSiteError::BadMysqlVersion));
    assert_eq!(check_new_site(&sites, "A.com", "8.4", "8.4"), Err(NewSiteError::Exists));
}

#[test]
fn site_list_operations() {
    let mut sites = Vec::new();
    assert!(add_site(&mut sites, site("a.com")));
    assert!(add_site(&mut sites, site("b.com")));
    assert!(!add_site(&mut sites, site("a.com")));
    assert_eq!(domains(&sites), vec!["a.com", "b.com"]);
    assert!(site_exists(&sites, "b.com"));
    assert_eq!(find_site(&sites, "b.com"), Some(1));
    assert_eq!(find_site(&sites, "c.com"), None);
    let removed = remove_site(&mut sites, "a.com").expect("present");
    assert_eq!(removed.domain, "a.com");
    assert_eq!(domains(&sites), vec!["b.com"]);
    assert!(remove_site(&mut sites, "a.com").is_none());
    assert!(!site_exists(&sites, "a.com"));
}

#[test]
fn remove_takes_every_copy() {
    let mut sites = vec![site("a.com"), site("b.com"), site("a.com")];
    let first = remove_site(&mut sites, "a.com").expect("present");
    assert_eq!(first.id, "id-a.com");
    assert_eq!(domains(&sites), vec!["b.com"]);
}

#[test]
fn new_site_record() {
    let w = site("a.com");
    assert_eq!(w.status, "active");
    assert_eq!(w.db_name.as_deref(), Some("a_com_db"));
    assert_eq!(w.db_user.as_deref(), Some("u_x"));
    assert!(!w.ssl_enabled && !w.phpmyadmin_enabled && !w.wordpress);
    assert!(w.ssl_expiry.is_none() && w.redis_db.is_none());
}

#[test]
fn site_settings_updates() {
    let mut sites = vec![site("a.com"), site("b.com")];
    assert_eq!(mark_ssl(&mut sites, "b.com"), Some(1));
    assert!(sites[1].ssl_enabled && !sites[0].ssl_enabled);
    assert_eq!(set_ssl_expiry(&mut sites, "b.com", Some("2025-01-01".to_string())), Some(1));
    assert_eq!(sites[1].ssl_expiry.as_deref(), Some("2025-01-01"));
    assert_eq!(set_phpmyadmin(&mut sites, "a.com", true), Some(0));
    assert!(sites[0].phpmyadmin_enabled);
    assert_eq!(mark_certificate(&mut sites, "a.com", "2024-05-05".to_string()), Some(0));
    assert!(sites[0].ssl_enabled);
    assert_eq!(sites[0].ssl_expiry.as_deref(), Some("2024-05-05"));
    assert_eq!(mark_ssl(&mut sites, "zzz.com"), None);
    assert_eq!(domains(&sites), vec!["a.com", "b.com"]);
}

#[test]
fn clone_checks() {
    let sites = vec![site("a.com"), site("b.com")];
    assert_eq!(check_clone(&sites, "a.com", "c.com"), Ok(0));
    assert_eq!(check_clone(&sites, "a..com", "c.com"), Err(CloneError::InvalidDomain));
    assert_eq!(check_clone(&sites, "a.com", "a.com"), Err(CloneError::SameDomain));
    assert_eq!(check_clone(&sites, "x.com", "c.com"), Err(CloneError::SourceMissing));
    assert_eq!(check_clone(&sites, "a.com", "b.com"), Err(CloneError::TargetExists));
}

#[test]
fn cloned_record() {
    let mut src = site("a.com");
    src.wordpress = true;
    src.ssl_enabled = true;
    let c = cloned_site(
        &src,
        "id2".to_string(),
        "c.com".to_string(),
        Some("a_com_db_clone".to_string()),
        "/var/www/c.com".to_string(),
        "t".to_string(),
    );
    assert_eq!(c.domain, "c.com");
    assert_eq!(c.php_version, "8.4");
    assert_eq!(c.mysql_version, "9.0");
    assert_eq!(c.db_name.as_deref(), Some("a_com_db_clone"));
    assert_eq!(c.db_user.as_deref(), Some("a_com_db_clone"));
    assert_eq!(c.status, "Đang chạy");
    assert!(c.wordpress && !c.ssl_enabled);
}

#[test]
fn domains_normalised() {
    assert_eq!(normalize_domain("  WWW.Example.Com\n"), "www.example.com");
}

#[test]
fn paths_and_names() {
    assert_eq!(php_service_name("8.4"), "php84-php-fpm");
    assert_eq!(vhost_path("a.com"), "/etc/nginx/conf.d/a.com.conf");
    assert_eq!(creds_path("my.site.com"), "/etc/nitpanel/db_my_site_com.txt");
    assert_eq!(
        landing_page("o'neil.com"),
        "<?php\necho '<h1>o&#39;neil.com is live!</h1><p>PHP '.phpversion().'</p>';\n"
    );
}

#[test]
fn database_plans() {
    let p = plan_site_database("my-site.example.com", None, None, None).expect("ok");
    assert_eq!(p.database, "my_site_example_com");
    assert_eq!(p.user, "u_my_site_exam");
    assert_eq!(p.password.len(), 20);
    assert!(p.password.chars().all(|c| c.is_ascii_alphanumeric()));
    let q = plan_site_database("a.com", Some("shop"), Some("shopper"), Some("Abcdef123456")).expect("ok");
    assert_eq!((q.database.as_str(), q.user.as_str(), q.password.as_str()), ("shop", "shopper", "Abcdef123456"));
    assert!(plan_site_database("a.com", None, None, Some("bad pass")).is_err());
    let r = plan_site_database("1.com", Some(""), Some(""), Some("")).expect("ok");
    assert_eq!(r.database, "_1_com");
    assert_eq!(r.user, "u__1_com");
    assert_eq!(r.password.len(), 20);
    assert!(valid_ident(&r.database) && valid_ident(&r.user));
}

#[test]
fn sql_statements() {
    assert_eq!(
        create_db_sql("db", "us", "pw"),
        "CREATE DATABASE IF NOT EXISTS `db` CHARACTER SET utf8mb4 COLLATE utf8mb4_unicode_ci;CREATE USER IF NOT EXISTS 'us'@'localhost' IDENTIFIED BY 'pw';ALTER USER 'us'@'localhost' IDENTIFIED BY 'pw';GRANT ALL PRIVILEGES ON `db`.* TO 'us'@'localhost';FLUSH PRIVILEGES;"
    );
    assert_eq!(
        clone_db_sql("db", "us", "pw"),
        "CREATE DATABASE IF NOT EXISTS `db` CHARACTER SET utf8mb4 COLLATE utf8mb4_unicode_ci; CREATE USER IF NOT EXISTS 'us'@'localhost' IDENTIFIED BY 'pw'; GRANT ALL PRIVILEGES ON `db`.* TO 'us'@'localhost'; FLUSH PRIVILEGES;"
    );
    assert_eq!(
        drop_db_sql("db", "us"),
        "DROP DATABASE IF EXISTS `db`; DROP USER IF EXISTS 'us'@'localhost'; FLUSH PRIVILEGES;"
    );
    assert_eq!(
        root_password_sql("NewPass12345"),
        "ALTER USER 'root'@'localhost' IDENTIFIED BY 'NewPass12345'; FLUSH PRIVILEGES;"
    );
    assert_eq!(clone_db_name("shop"), "shop_clone");
    assert_eq!(clone_db_name(&"a".repeat(48)), "a".repeat(48));
}

#[test]
fn drop_plans() {
    let w = site("a.com");
    assert_eq!(
        drop_plan(&Some(w), true),
        Some("DROP DATABASE IF EXISTS `a_com_db`; DROP USER IF EXISTS 'u_x'@'localhost'; FLUSH PRIVILEGES;".to_string())
    );
    assert_eq!(drop_plan(&Some(site("a.com")), false), None);
    assert_eq!(drop_plan(&None, true), None);
    let mut bad = site("a.com");
    bad.db_user = Some("bad-user".to_string());
    assert_eq!(drop_plan(&Some(bad), true), None);
    let mut none = site("a.com");
    none.db_name = None;
    assert_eq!(drop_plan(&Some(none), true), None);
}

#[test]
fn notes_read_back() {
    let note = creds_note("a.com", "a_com", "u_a_com", "Pw.123456789");
    assert_eq!(note, "Domain:   a.com\nDatabase: a_com\nUser:     u_a_com\nPassword: Pw.123456789\n");
    let c = parse_db_creds(&note);
    assert_eq!((c.database.as_str(), c.user.as_str(), c.password.as_str()), ("a_com", "u_a_com", "Pw.123456789"));
    let cl = clone_note("d_clone", "d_clone", "XyZ");
    assert_eq!(cl, "Database: d_clone\nUser: d_clone\nPassword: XyZ\nHost: localhost\n");
    let d = parse_db_creds(&cl);
    assert_eq!((d.database.as_str(), d.user.as_str(), d.password.as_str()), ("d_clone", "d_clone", "XyZ"));
    let cnf = root_cnf_text("Root.Pass1");
    assert_eq!(cnf, "[client]\nuser=root\npassword=Root.Pass1\n");
    assert_eq!(parse_mysql_root_pass(&cnf), Some("Root.Pass1".to_string()));
}

#[test]
fn certificate_requests() {
    assert!(ssl_email_acceptable("me@x.com"));
    assert!(!ssl_email_acceptable("nope"));
    assert!(!ssl_email_acceptable(&format!("@{}", "a".repeat(254))));
    assert_eq!(certbot_email("me <me@x.com>; rm"), "meme@x.comrm");
    assert_eq!(certbot_email("a+b@c.d"), "a+b@c.d");
    assert_eq!(
        certbot_webroot_command("/var/www/a.com/public_html", "a.com", true, "me@x.com"),
        "certbot certonly --webroot -w '/var/www/a.com/public_html' -d 'a.com' -d www.'a.com' --email 'me@x.com' --agree-tos --non-interactive --no-eff-email --keep-until-expiring 2>&1"
    );
    assert_eq!(
        certbot_nginx_command("a.com", false, "me@x.com"),
        "certbot --nginx -d 'a.com'  --email 'me@x.com' --agree-tos --non-interactive --no-eff-email --redirect --keep-until-expiring 2>&1"
    );
}

#[test]
fn certificate_failures() {
    assert_eq!(ssl_failure("too many failed authorizations recently"), SslFailure::RateLimited);
    assert_eq!(ssl_failure("see rate.limit docs"), SslFailure::RateLimited);
    assert_eq!(ssl_failure("DNS problem: NXDOMAIN"), SslFailure::DnsNotReady);
    assert_eq!(ssl_failure("Connection refused"), SslFailure::Unreachable);
    assert_eq!(ssl_failure("something else"), SslFailure::Other);
    assert_eq!(ssl_failure_message("a.com", "boom"), "boom");
    assert_eq!(
        ssl_failure_message("a.com", "NXDOMAIN"),
        "🌐 DNS chưa trỏ về server này.\nCần tạo bản ghi A cho a.com trỏ về IP server.\n\nChi tiết:\nNXDOMAIN"
    );
    assert!(ssl_failure_message("a.com", "connection refused").starts_with("🔌 Server không phản hồi port 80."));
    assert!(ssl_failure_message("a.com", "rate.limit").ends_with("\n\nChi tiết:\nrate.limit"));
    assert_eq!(both_attempts("x", "y"), "--- webroot ---\nx\n--- nginx plugin ---\ny");
}

#[test]
fn certificate_dates_and_renewal() {
    assert_eq!(expiry_of("  2025-01-01 00:00:00+00:00 \n"), Some("2025-01-01 00:00:00+00:00".to_string()));
    assert_eq!(expiry_of(" \n"), None);
    assert_eq!(renew_command(true), "certbot renew --dry-run 2>&1");
    assert_eq!(renew_command(false), "certbot renew --quiet --no-self-upgrade 2>&1; systemctl reload nginx 2>&1");
    assert_eq!(renew_cron(), "0 3 * * * root certbot renew --quiet --no-self-upgrade --post-hook \"systemctl reload nginx 2>/dev/null\"\n");
}

#[test]
fn redis_databases() {
    let mut a = site("a.com");
    a.redis_db = Some(3);
    let b = site("b.com");
    let mut c = site("c.com");
    c.redis_db = Some(0);
    let r = redis_assignments(&vec![a, b, c]);
    assert_eq!(r, vec![("a.com".to_string(), 3u8), ("c.com".to_string(), 0u8)]);
}

#[test]
fn clone_database_choice() {
    let s = site("a.com");
    assert_eq!(clone_db_plan(None, &s), Some("a_com_db_clone".to_string()));
    assert_eq!(clone_db_plan(Some(true), &s), Some("a_com_db_clone".to_string()));
    assert_eq!(clone_db_plan(Some(false), &s), None);
    let mut bare = site("b.com");
    bare.db_name = None;
    assert_eq!(clone_db_plan(None, &bare), None);
}
