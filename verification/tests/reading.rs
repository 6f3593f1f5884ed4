use nitpanel::parse::{
    backups_to_prune, check_archive_listing, find_last_field, listed_names, parse_cert_list,
    parse_db_creds, parse_mysql_root_pass, parse_pma_info, parse_redis_conf, split_lines,
};
use nitpanel::request::{
    allowed_ip, audit_line, bearer_token, client_ip, command_output, host_allowed, request_logged,
    same_ignoring_ascii_case, split_at_char, trust_xff_setting,
};

#[test]
fn lines_like_str_lines() {
    for s in ["", "a", "a\n", "a\nb", "a\r\nb\r\n", "\n\nx", "a\rb\n", "x\n\n"] {
        let expected: Vec<String> = s.lines().map(|l| l.to_string()).collect();
        assert_eq!(split_lines(s), expected, "{:?}", s);
    }
}

#[test]
fn split_like_str_split() {
    for s in ["", "a,b", ",", "a,,b,", "no comma"] {
        let expected: Vec<String> = s.split(',').map(|l| l.to_string()).collect();
        assert_eq!(split_at_char(s, ','), expected, "{:?}", s);
    }
}

#[test]
fn credential_note() {
    let c = parse_db_creds("Domain:   a.com\nDatabase: a_com\nUser:     u_a_com\nPassword: Secret123456\n");
    assert_eq!(c.database, "a_com");
    assert_eq!(c.user, "u_a_com");
    assert_eq!(c.password, "Secret123456");
    let e = parse_db_creds("nothing here");
    assert_eq!((e.database.as_str(), e.user.as_str(), e.password.as_str()), ("", "", ""));
    let last_wins = parse_db_creds("User: one\nUser:  two  \n");
    assert_eq!(last_wins.user, "two");
}

#[test]
fn last_field_of_lines() {
    let ls = split_lines("a: 1\nb: 2\na: 3");
    assert_eq!(find_last_field(&ls, "a:"), Some("3".to_string()));
    assert_eq!(find_last_field(&ls, "c:"), None);
}

#[test]
fn phpmyadmin_note() {
    assert_eq!(
        parse_pma_info("user=pma_ab12cd34\npassword=Xyz\n"),
        Some(("pma_ab12cd34".to_string(), "Xyz".to_string()))
    );
    assert_eq!(parse_pma_info("user=\npassword=x\n"), None);
    assert_eq!(parse_pma_info("user=a\n"), None);
}

#[test]
fn redis_note() {
    let (h, p) = parse_redis_conf("host: 127.0.0.1\nport: 6379\npassword: secret\n");
    assert_eq!(h, Some("127.0.0.1".to_string()));
    assert_eq!(p, Some("6379".to_string()));
    assert_eq!(parse_redis_conf("x"), (None, None));
}

#[test]
fn mysql_root_option_file() {
    assert_eq!(
        parse_mysql_root_pass("[client]\nuser=root\npassword=AbC123\n"),
        Some("AbC123".to_string())
    );
    assert_eq!(parse_mysql_root_pass("  password= spaced  \n"), Some("spaced".to_string()));
    assert_eq!(parse_mysql_root_pass("password=\npassword=second\n"), Some("second".to_string()));
    assert_eq!(parse_mysql_root_pass("[client]\nuser=root\n"), None);
}

#[test]
fn certificate_listing() {
    let out = "Saving debug log\n\
Found the following certs:\n\
  Certificate Name: a.com\n\
    Domains: a.com www.a.com\n\
    Expiry Date: 2025-01-01 00:00:00+00:00 (VALID: 80 days)\n\
    Certificate Path: /etc/letsencrypt/live/a.com/fullchain.pem\n\
  Certificate Name: b.com\n\
    Domains: b.com\n";
    let certs = parse_cert_list(out);
    assert_eq!(certs.len(), 2);
    assert_eq!(certs[0].name, "a.com");
    assert_eq!(certs[0].domains.as_deref(), Some("a.com www.a.com"));
    assert_eq!(certs[0].expiry.as_deref(), Some("2025-01-01 00:00:00+00:00 (VALID: 80 days)"));
    assert_eq!(certs[0].cert_path.as_deref(), Some("/etc/letsencrypt/live/a.com/fullchain.pem"));
    assert_eq!(certs[1].name, "b.com");
    assert_eq!(certs[1].expiry, None);
    assert!(parse_cert_list("No certificates found.\n").is_empty());
}

#[test]
fn archive_listing_check() {
    assert_eq!(check_archive_listing("a.txt\ndir/b.txt\n", false), Ok(()));
    assert_eq!(check_archive_listing("ok\n../evil\n/abs\n", false), Err("../evil".to_string()));
    assert_eq!(check_archive_listing("x/../../y\n", false), Err("x/../../y".to_string()));
    assert_eq!(check_archive_listing("/etc/passwd\n", false), Err("/etc/passwd".to_string()));
    assert_eq!(check_archive_listing("ok\na/..\n", false), Err("a/..".to_string()));
    assert_eq!(check_archive_listing("x..y\n", false), Err("x..y".to_string()));
    let seven = "2024-01-01 10:00:00 ....A  10  5  docs/a.txt\n------------------- -----\n2024-01-01 10:00:00 ....A 1 1 ../up.txt\n";
    assert_eq!(check_archive_listing(seven, true), Err("../up.txt".to_string()));
    assert_eq!(check_archive_listing("   \n----  --\n", true), Ok(()));
}

#[test]
fn backups_beyond_the_newest() {
    let listing = "/b/backup_5.tar.gz\n/b/backup_4.sql\n/b/backup_3.tar.gz\n/b/backup_2.sql\n/b/backup_1.tar.gz\n/b/backup_0.sql\n/b/backup_x.tar.gz\n";
    assert_eq!(
        backups_to_prune(listing, 5),
        vec!["/b/backup_0.sql".to_string(), "/b/backup_x.tar.gz".to_string()]
    );
    assert!(backups_to_prune("/b/one\n", 5).is_empty());
}

#[test]
fn service_names_listed() {
    assert_eq!(
        listed_names("php84-php-fpm.service\n\n  php83-php-fpm.service  \n"),
        vec!["php84-php-fpm.service".to_string(), "php83-php-fpm.service".to_string()]
    );
}

#[test]
fn forwarded_setting() {
    assert!(trust_xff_setting(Some("1")));
    assert!(trust_xff_setting(Some("TRUE")));
    assert!(trust_xff_setting(Some("true")));
    assert!(!trust_xff_setting(Some("yes")));
    assert!(!trust_xff_setting(None));
    assert!(same_ignoring_ascii_case("Example.COM", "example.com"));
    assert!(!same_ignoring_ascii_case("a", "ab"));
}

#[test]
fn client_address() {
    assert_eq!(client_ip(true, Some(" 1.1.1.1 , 2.2.2.2"), Some("9.9.9.9")), "1.1.1.1");
    assert_eq!(client_ip(false, Some("1.1.1.1"), Some("9.9.9.9")), "9.9.9.9");
    assert_eq!(client_ip(true, Some("  ,2.2.2.2"), Some("9.9.9.9")), "9.9.9.9");
    assert_eq!(client_ip(true, None, None), "unknown");
}

#[test]
fn allow_lists() {
    assert!(host_allowed(None, "anything"));
    assert!(host_allowed(Some("   "), "anything"));
    assert!(host_allowed(Some("panel.example.com, other.com"), "PANEL.example.com"));
    assert!(!host_allowed(Some("panel.example.com"), "evil.com"));
    assert!(allowed_ip(None, "1.2.3.4"));
    assert!(allowed_ip(Some("1.2.3.4, 5.6.7.8"), "5.6.7.8"));
    assert!(!allowed_ip(Some("1.2.3.4"), "1.2.3.40"));
}

#[test]
fn bearer_tokens() {
    assert_eq!(bearer_token("Bearer abc.def"), "abc.def");
    assert_eq!(bearer_token("Bearer Bearer  x "), "x");
    assert_eq!(bearer_token("abc"), "abc");
}

#[test]
fn audit_lines() {
    assert_eq!(
        audit_line("2024-01-01T00:00:00Z", "1.2.3.4", "LOGIN_FAIL", "a\nb\tc"),
        "2024-01-01T00:00:00Z\t1.2.3.4\tLOGIN_FAIL\ta b c\n"
    );
}

#[test]
fn logged_requests() {
    assert!(request_logged("/api/websites"));
    assert!(!request_logged("/api/system/info"));
    assert!(!request_logged("/api/csrf-token"));
}

#[test]
fn command_reports() {
    assert_eq!(command_output(true, "  done \n", "ignored"), "done");
    assert_eq!(command_output(false, "out", "err\n"), "out\nerr");
    assert_eq!(command_output(false, "", " err "), "err");
}
