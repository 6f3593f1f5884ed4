use nitpanel::sanitize::{
    sanitize_archive_name, sanitize_error, sanitize_filename, sanitize_ident, shell_escape, vn,
};
use nitpanel::validate::{
    valid_db_password, valid_domain, valid_email, valid_ident, valid_ip, valid_path,
};

#[test]
fn domain_rules() {
    assert!(valid_domain("example.com"));
    assert!(valid_domain("sub-1.example.co"));
    assert!(!valid_domain(""));
    assert!(!valid_domain("example"));
    assert!(!valid_domain(".example.com"));
    assert!(!valid_domain("example.com."));
    assert!(!valid_domain("-example.com"));
    assert!(!valid_domain("example.com-"));
    assert!(!valid_domain("a..b.com"));
    assert!(!valid_domain("exa mple.com"));
    assert!(!valid_domain("exa_mple.com"));
    assert!(!valid_domain("ví-dụ.com"));
    let long_ok = format!("{}.com", "a".repeat(249));
    assert_eq!(long_ok.len(), 253);
    assert!(valid_domain(&long_ok));
    let too_long = format!("{}.com", "a".repeat(250));
    assert!(!valid_domain(&too_long));
}

#[test]
fn path_rules() {
    assert!(valid_path(""));
    assert!(valid_path("/"));
    assert!(valid_path("wp-content/uploads/a.png"));
    assert!(!valid_path("../etc/passwd"));
    assert!(!valid_path("a/../b"));
    assert!(!valid_path("a\\b"));
    assert!(!valid_path("a\nb"));
    assert!(!valid_path("a\rb"));
    assert!(!valid_path("a\0b"));
}

#[test]
fn ip_rules() {
    assert!(valid_ip("192.168.1.10"));
    assert!(valid_ip("10.0.0.0/8"));
    assert!(valid_ip("::1"));
    assert!(valid_ip("2001:db8::-1"));
    assert!(!valid_ip(""));
    assert!(!valid_ip("1..2"));
    assert!(!valid_ip("1.2.3.4;rm"));
    assert!(!valid_ip("1.2.3.4 5"));
    assert!(valid_ip(&"1".repeat(50)));
    assert!(!valid_ip(&"1".repeat(51)));
}

#[test]
fn identifier_rules() {
    assert!(valid_ident("wp_db"));
    assert!(valid_ident("_x1"));
    assert!(!valid_ident("1abc"));
    assert!(!valid_ident(""));
    assert!(!valid_ident("a-b"));
    assert!(!valid_ident("a b"));
    assert!(valid_ident(&"a".repeat(48)));
    assert!(!valid_ident(&"a".repeat(49)));
}

#[test]
fn db_password_rules() {
    assert!(valid_db_password("Abcdef123456"));
    assert!(valid_db_password("a.b_c-d+e!f@g#"));
    assert!(!valid_db_password("short1"));
    assert!(!valid_db_password("has space 12345"));
    assert!(!valid_db_password("quote'12345678"));
    assert!(!valid_db_password("back`tick12345"));
    assert!(!valid_db_password("slash\\12345678"));
    assert!(valid_db_password(&"a".repeat(64)));
    assert!(!valid_db_password(&"a".repeat(65)));
}

#[test]
fn email_rules() {
    assert!(valid_email("admin@example.com"));
    assert!(valid_email("a+b@c.d"));
    assert!(!valid_email(""));
    assert!(!valid_email("@example.com"));
    assert!(!valid_email("admin@example.com@"));
    assert!(!valid_email("admin@examplecom"));
    assert!(!valid_email("admin.example.com"));
    assert!(!valid_email("a b@c.d"));
}

#[test]
fn compact_versions() {
    assert_eq!(vn("8.4"), "84");
    assert_eq!(vn("7.4.1"), "741");
    assert_eq!(vn("84"), "84");
    assert_eq!(vn(""), "");
}

#[test]
fn identifiers_from_text() {
    assert_eq!(sanitize_ident("my-site.com"), "mysitecom");
    assert_eq!(sanitize_ident("123abc"), "_123abc");
    assert_eq!(sanitize_ident("!!!"), "x");
    assert_eq!(sanitize_ident(""), "x");
    assert_eq!(sanitize_ident(&"a".repeat(60)), "a".repeat(48));
    let digits_first = format!("9{}", "a".repeat(60));
    let expected = format!("_9{}", "a".repeat(46));
    assert_eq!(expected.len(), 48);
    assert_eq!(sanitize_ident(&digits_first), expected);
    assert_eq!(sanitize_ident("shop_db"), "shop_db");
}

#[test]
fn sanitized_identifiers_are_valid() {
    let long_digits = format!("9{}", "a".repeat(60));
    for s in ["my-site.com", "123abc", "!!!", "", "Đà Nẵng", "a_b", long_digits.as_str()] {
        assert!(valid_ident(&sanitize_ident(s)), "{}", s);
    }
}

#[test]
fn shell_quoting() {
    assert_eq!(shell_escape("abc"), "'abc'");
    assert_eq!(shell_escape(""), "''");
    assert_eq!(shell_escape("it's"), "'it'\"'\"'s'");
    assert_eq!(shell_escape("a b;rm -rf /"), "'a b;rm -rf /'");
}

#[test]
fn error_messages_hide_paths() {
    assert_eq!(sanitize_error("open /var/www/site/x failed"), "open [webroot]/site/x failed");
    assert_eq!(sanitize_error("/etc/nginx/conf.d/a.conf"), "[nginx]/a.conf");
    assert_eq!(sanitize_error("/etc/nitpanel/state.json"), "[config]/state.json");
    assert_eq!(sanitize_error("/var/log/nitpanel/audit.log"), "[logs]/audit.log");
    assert_eq!(sanitize_error("/tmp/nitpanel_stack.sh"), "[tmp]/stack.sh");
    assert_eq!(sanitize_error("nothing to hide"), "nothing to hide");
    assert_eq!(sanitize_error("/tmp/nitpanel_var/www/x"), "[tmp][webroot]/x");
    assert_eq!(sanitize_error("/var/www/etc/nitpanel/a"), "[webroot][config]/a");
}

#[test]
fn uploaded_file_names() {
    assert_eq!(sanitize_filename("../../etc/passwd"), "passwd");
    assert_eq!(sanitize_filename("my file (1).txt"), "my file 1.txt");
    assert_eq!(sanitize_filename("dir/"), "dir");
    assert_eq!(sanitize_filename(".."), "file");
    assert_eq!(sanitize_filename("/"), "file");
    assert_eq!(sanitize_filename("  a.txt "), "a.txt");
    assert_eq!(sanitize_filename("ảnh.jpg"), "ảnh.jpg");
    assert_eq!(sanitize_filename("x\"y'.php"), "xy.php");
}

#[test]
fn archive_names() {
    assert_eq!(sanitize_archive_name(""), "archive.zip");
    assert_eq!(sanitize_archive_name("out.tar.gz"), "out.tar.gz");
    assert_eq!(sanitize_archive_name("../x/backup?.zip"), "backup.zip");
}
