use nitpanel::commands::{pool_configured, pool_dirs, pool_file, pool_listens};
use nitpanel::config::{socket_wait_step, SocketWait};
use nitpanel::files::{join_path, typed_listing_command, webroot_new_plan, webroot_new_target};
use nitpanel::parse::check_entry_types;
use nitpanel::commands::{
    backup_archive_path, backup_dir, backup_dump_path, backup_list_command, backup_listing_command,
    backup_tar_command, bulk_cert_command, cert_expiry_command, chown_command, chown_tree_command,
    copy_database_command, copy_tree_command, dump_command, link_owner_command, php_active_command,
    php_restart_command, php_unit_check_command, php_unit_status_command, pma_link_path,
    pool_listen_line, remove_tree_command, site_root, socket_dir_command, tail_install_log_command,
    stack_launch_command, unban_command, webroot_setup_command, wp_db_name_command,
    wp_db_password_command, wp_db_user_command, www_resolves_command,
};
use nitpanel::config::php_fpm_pool_conf;
use nitpanel::files::{
    archive_kind, attachment_name, batch_delete_refused, compress_command, compress_kind,
    compress_output_name, compress_prerequisite, extract_command, extract_prerequisite,
    confine, listing_command, listing_target, new_entry_target, removal_command, valid_new_basename,
    valid_rename_target, webroot, webroot_existing, webroot_lookup, webroot_resolve, ArchiveKind,
    CompressKind,
};
use nitpanel::listing::{
    download_allowed, editor_can_open, editor_can_save, listing_entry, names_in_order, shown_path,
    sort_entries, upload_within_limit, FileEntry,
};
use nitpanel::scripts::{install_job, install_log, install_script, stack_request, stack_script};

fn entry(name: &str, is_dir: bool) -> FileEntry {
    listing_entry(name.to_string(), format!("/{}", name), is_dir, !is_dir, 7, String::new())
}

#[test]
fn ownership_and_units() {
    assert_eq!(chown_tree_command("nginx", "/var/www/a.com"), "chown -R nginx:nginx '/var/www/a.com' 2>/dev/null");
    assert_eq!(
        webroot_setup_command("nginx", "/var/www/a.com/public_html"),
        "chown -R nginx:nginx '/var/www/a.com/public_html' 2>/dev/null; chmod 755 '/var/www/a.com/public_html'"
    );
    assert_eq!(
        php_unit_check_command("php84-php-fpm"),
        "systemctl list-unit-files 2>/dev/null | grep -q '^php84-php-fpm\\.service' && echo yes"
    );
    assert_eq!(socket_dir_command("nginx"), "chown nginx:nginx /run/php-fpm 2>/dev/null; chmod 755 /run/php-fpm");
    assert_eq!(
        php_restart_command("php84-php-fpm"),
        "systemctl enable 'php84-php-fpm' 2>/dev/null; systemctl restart 'php84-php-fpm' 2>/dev/null"
    );
    assert_eq!(php_unit_status_command("php84-php-fpm"), "systemctl status 'php84-php-fpm' --no-pager 2>&1 | tail -20");
    assert_eq!(php_active_command("php84-php-fpm"), "systemctl is-active 'php84-php-fpm' 2>/dev/null");
    assert_eq!(pool_listen_line("84"), "listen = /run/php-fpm/php84.sock");
    assert!(php_fpm_pool_conf("8.4", "nginx").contains(&pool_listen_line("84")));
    assert_eq!(remove_tree_command("/var/www/a.com"), "rm -rf '/var/www/a.com'");
    assert_eq!(chown_command("nginx", "/p/o.zip"), "chown nginx:nginx '/p/o.zip' 2>/dev/null");
    assert_eq!(
        stack_launch_command("/tmp/nitpanel_stack.sh"),
        "nohup bash '/tmp/nitpanel_stack.sh' > /var/log/nitpanel/stack_install.log 2>&1 &"
    );
    assert_eq!(unban_command("1.2.3.4"), "fail2ban-client unban '1.2.3.4' 2>&1");
    assert_eq!(tail_install_log_command("redis"), "tail -n 80 /var/log/nitpanel/install_redis.log 2>/dev/null || echo 'Chưa có log'");
}

#[test]
fn certificates() {
    assert_eq!(
        www_resolves_command("a.com"),
        "(getent ahosts www.'a.com' 2>/dev/null | head -1 | grep -q . || host www.'a.com' 2>/dev/null | grep -q 'has address') && echo yes"
    );
    assert_eq!(
        cert_expiry_command("a.com"),
        "certbot certificates --cert-name 'a.com' 2>/dev/null | awk -F': ' '/Expiry Date/ {print $2}' | head -1"
    );
    assert_eq!(
        bulk_cert_command("a.com", "me@x.com"),
        "certbot --nginx -d 'a.com' -d www.'a.com' --non-interactive --agree-tos --email 'me@x.com' 2>&1"
    );
}

#[test]
fn backups() {
    let dir = backup_dir("a.com");
    assert_eq!(dir, "/var/www/a.com/backups");
    assert_eq!(site_root("a.com"), "/var/www/a.com");
    assert_eq!(backup_archive_path(&dir, "20240101-000000"), "/var/www/a.com/backups/backup_20240101-000000.tar.gz");
    assert_eq!(backup_dump_path(&dir, "20240101-000000"), "/var/www/a.com/backups/backup_20240101-000000.sql");
    assert_eq!(
        backup_tar_command("/b/x.tar.gz", "/var/www/a.com"),
        "tar -czf '/b/x.tar.gz' -C '/var/www/a.com' --exclude='backups' --exclude='logs' --exclude='cache' . 2>&1"
    );
    assert_eq!(dump_command("u", "p", "d", "/b/x.sql"), "mysqldump -u'u' -p'p' 'd' > '/b/x.sql' 2>&1");
    assert_eq!(backup_listing_command(&dir), "ls -t '/var/www/a.com/backups'/backup_* 2>/dev/null");
    assert_eq!(backup_list_command(&dir), "ls -lht '/var/www/a.com/backups' 2>/dev/null || echo 'No backups'");
}

#[test]
fn clones() {
    assert_eq!(copy_tree_command("/var/www/a.com", "/var/www/b.com"), "cp -a '/var/www/a.com'/* '/var/www/b.com'/ 2>&1 && echo OK");
    assert_eq!(
        copy_database_command("su", "sp", "sd", "du", "dp", "dd"),
        "mysqldump -u'su' -p'sp' 'sd' | mysql -u'du' -p'dp' 'dd' 2>&1"
    );
    assert_eq!(
        wp_db_name_command("d_clone", "/var/www/b.com/public_html/wp-config.php"),
        "sed -i \"s/define.*DB_NAME.*/define('DB_NAME', 'd_clone');/\" '/var/www/b.com/public_html/wp-config.php'"
    );
    assert_eq!(
        wp_db_user_command("d_clone", "c"),
        "sed -i \"s/define.*DB_USER.*/define('DB_USER', 'd_clone');/\" 'c'"
    );
    assert_eq!(
        wp_db_password_command("Pw", "c"),
        "sed -i \"s/define.*DB_PASSWORD.*/define('DB_PASSWORD', 'Pw');/\" 'c'"
    );
    assert_eq!(pma_link_path("a.com"), "/var/www/a.com/public_html/phpmyadmin");
    assert_eq!(link_owner_command("nginx", "/x"), "chown -h nginx:nginx '/x'");
}

#[test]
fn package_installs() {
    let php = install_script("php84", "nginx").expect("known");
    assert!(php.starts_with("set -e\ndnf --setopt=logdir=/tmp --setopt=logfile=/tmp/dnf_nitpanel.log install -y epel-release || true\n"));
    assert!(php.contains("php84-php-fpm php84-php-cli"));
    assert!(php.contains(&php_fpm_pool_conf("8.4", "nginx")));
    assert!(php.contains("echo \"PHP 8.4: $(systemctl is-active $PHP_SVC 2>/dev/null)\""));
    let m = install_script("mysql84", "nginx").expect("known");
    assert!(m.contains("mysql84-community-release-el9-1.noarch.rpm"));
    assert!(m.contains("awk '{print $NF}'"));
    assert_eq!(
        install_script("phpmyadmin", "nginx").expect("known"),
        "dnf --setopt=logdir=/tmp --setopt=logfile=/tmp/dnf_nitpanel.log install -y epel-release || true; dnf --setopt=logdir=/tmp --setopt=logfile=/tmp/dnf_nitpanel.log install -y phpMyAdmin"
    );
    assert!(install_script("redis", "nginx").expect("known").contains("requirepass $REDIS_PASS"));
    assert!(install_script("unknown", "nginx").is_none());
    assert!(install_script("", "nginx").is_none());
}

#[test]
fn install_jobs() {
    let j = install_job("nginx", "nginx").expect("known");
    assert!(j.script.starts_with("#!/bin/bash\nset -o pipefail\n"));
    assert_eq!(j.script_path, "/tmp/nit_install_nginx.sh");
    assert_eq!(j.log_path, "/var/log/nitpanel/install_nginx.log");
    assert_eq!(j.launch, "nohup bash '/tmp/nit_install_nginx.sh' > '/var/log/nitpanel/install_nginx.log' 2>&1 &");
    assert!(install_job("nope", "nginx").is_none());
    assert_eq!(install_log("php-8.4"), "/var/log/nitpanel/install_php84.log");
}

#[test]
fn stack_requests() {
    let (mv, pvs) = stack_request(None, None).expect("default");
    assert_eq!(mv, "9.0");
    assert_eq!(pvs, vec!["8.4"]);
    let given = vec!["7.4".to_string(), "5.6".to_string(), "8.2".to_string()];
    let (mv, pvs) = stack_request(Some("8.4"), Some(&given)).expect("ok");
    assert_eq!(mv, "8.4");
    assert_eq!(pvs, vec!["7.4", "8.2"]);
    let (_, none) = stack_request(Some("9.0"), Some(&vec![])).expect("ok");
    assert!(none.is_empty());
    assert!(stack_request(Some("8.0"), None).is_none());
}

#[test]
fn stack_scripts() {
    let s = stack_script("8.4", &vec!["8.3".to_string(), "7.4".to_string()], "nginx");
    assert!(s.starts_with("#!/bin/bash\nset -o pipefail\n"));
    assert!(s.contains("=== Install MySQL 8.4 ==="));
    assert!(s.contains("https://dev.mysql.com/get/mysql84-community-release-el9-1.noarch.rpm"));
    assert!(s.contains("echo \"Temp password length: ${#TMPPASS}\""));
    let p83 = s.find("=== Install PHP 8.3 ===").expect("8.3");
    let p74 = s.find("=== Install PHP 7.4 ===").expect("7.4");
    assert!(p83 < p74);
    assert!(s.contains(&php_fpm_pool_conf("7.4", "nginx")));
    assert!(s.ends_with("echo \"[$(date)] === DONE ===\"\n"));
    let t = stack_script("9.0", &vec![], "nginx");
    assert!(t.contains("mysql90-community-release"));
    assert!(!t.contains("=== Install PHP"));
}

#[test]
fn archives() {
    assert_eq!(archive_kind("/x/Site.ZIP"), Some(ArchiveKind::Zip));
    assert_eq!(archive_kind("a.tar.gz"), Some(ArchiveKind::Tgz));
    assert_eq!(archive_kind("a.tgz"), Some(ArchiveKind::Tgz));
    assert_eq!(archive_kind("a.tar.bz2"), Some(ArchiveKind::Tbz2));
    assert_eq!(archive_kind("a.txz"), Some(ArchiveKind::Txz));
    assert_eq!(archive_kind("a.tar"), Some(ArchiveKind::Tar));
    assert_eq!(archive_kind("a.7z"), Some(ArchiveKind::SevenZip));
    assert_eq!(archive_kind("a.rar"), None);
    assert_eq!(extract_prerequisite(ArchiveKind::Zip), Some("unzip"));
    assert_eq!(extract_prerequisite(ArchiveKind::Tgz), None);
    assert_eq!(listing_command(ArchiveKind::Tgz, "/a.tgz"), "tar -tzf '/a.tgz' 2>/dev/null");
    assert_eq!(extract_command(ArchiveKind::Zip, "/a.zip", "/d"), "unzip -o '/a.zip' -d '/d' 2>&1");
    assert_eq!(extract_command(ArchiveKind::SevenZip, "/a.7z", "/d"), "7z x -y -o'/d' '/a.7z' 2>&1");
    assert_eq!(extract_command(ArchiveKind::Txz, "/a.txz", "/d"), "tar -xJf '/a.txz' -C '/d' --no-same-owner 2>&1");
}

#[test]
fn compression() {
    assert_eq!(compress_kind("x.TAR.GZ"), CompressKind::Tgz);
    assert_eq!(compress_kind("x.tbz2"), CompressKind::Tbz2);
    assert_eq!(compress_kind("x.tar.xz"), CompressKind::Txz);
    assert_eq!(compress_kind("x.rar"), CompressKind::Zip);
    assert_eq!(compress_prerequisite(CompressKind::Tgz), None);
    assert_eq!(compress_prerequisite(CompressKind::Zip), Some("zip"));
    assert_eq!(compress_output_name("site", None, None), "site.zip");
    assert_eq!(compress_output_name("site", Some("tar.gz"), None), "site.tar.gz");
    assert_eq!(compress_output_name("site", Some(""), Some("../out?.tgz")), "out.tgz");
    assert_eq!(compress_output_name("site", None, Some("???")), "site.zip");
    assert_eq!(
        compress_command(CompressKind::Zip, "/p", "/p/o.zip", "dir"),
        "cd '/p' && zip -rq '/p/o.zip' 'dir' 2>&1"
    );
}

#[test]
fn names_and_paths() {
    assert!(valid_new_basename("a.txt"));
    assert!(!valid_new_basename(".."));
    assert!(!valid_new_basename("a/b"));
    assert!(valid_rename_target("new name.txt"));
    assert!(!valid_rename_target(""));
    assert!(!valid_rename_target("."));
    assert!(!valid_rename_target("a\\b"));
    assert!(!valid_rename_target(&"a".repeat(241)));
    let base = "/var/www/a.com/public_html";
    assert!(batch_delete_refused(base, base));
    assert!(!batch_delete_refused("/var/www/a.com/public_html/.well-known", base));
    assert!(!batch_delete_refused("/var/www/a.com/public_html/x", base));
    assert_eq!(webroot("a.com"), "/var/www/a.com/public_html");
    assert_eq!(listing_target("a.com", ""), "/var/www/a.com/public_html");
    assert_eq!(listing_target("a.com", "///"), "/var/www/a.com/public_html");
    assert_eq!(listing_target("a.com", "/wp-content/"), "/var/www/a.com/public_html/wp-content/");
    assert_eq!(removal_command("/x y", true), "rm -rf '/x y'");
    assert_eq!(removal_command("/x", false), "rm -f '/x'");
    assert_eq!(attachment_name("a\"b\".txt"), "ab.txt");
    assert!(webroot_existing("bad domain", "x").is_none());
    assert!(webroot_existing("a.com", "../etc").is_none());
}

#[test]
fn listings_sorted() {
    let sorted = sort_entries(vec![
        entry("b.txt", false),
        entry("zdir", true),
        entry("A.txt", false),
        entry("adir", true),
        entry("a.txt", false),
    ]);
    let names: Vec<&str> = sorted.iter().map(|e| e.name.as_str()).collect();
    assert_eq!(names, vec!["adir", "zdir", "A.txt", "a.txt", "b.txt"]);
    assert!(sort_entries(vec![]).is_empty());
}

#[test]
fn sorting_matches_string_order() {
    let names = ["b", "a", "ä", "Z", "ab", "", "a b", "é", "z"];
    let mut expected: Vec<String> = names.iter().map(|s| s.to_string()).collect();
    expected.sort();
    let got: Vec<String> = sort_entries(names.iter().map(|n| entry(n, false)).collect())
        .into_iter()
        .map(|e| e.name)
        .collect();
    assert_eq!(got, expected);
    for a in names {
        for b in names {
            assert_eq!(names_in_order(a, b), a <= b, "{} {}", a, b);
        }
    }
}

#[test]
fn listing_entries() {
    let f = listing_entry("a".into(), "/a".into(), false, true, 42, "2024-01-01 00:00".into());
    assert_eq!(f.size, 42);
    let d = listing_entry("d".into(), "/d".into(), true, false, 4096, String::new());
    assert_eq!(d.size, 0);
    assert_eq!(shown_path("/var/www/a.com/public_html/x/y", "/var/www/a.com/public_html"), "/x/y");
    assert_eq!(shown_path("/elsewhere/y", "/var/www/a.com/public_html"), "/elsewhere/y");
}

#[test]
fn size_limits() {
    assert!(editor_can_open(1024 * 1024));
    assert!(!editor_can_open(1024 * 1024 + 1));
    assert!(editor_can_save(5 * 1024 * 1024));
    assert!(!editor_can_save(5 * 1024 * 1024 + 1));
    assert!(download_allowed(200 * 1024 * 1024));
    assert!(!download_allowed(200 * 1024 * 1024 + 1));
    assert!(upload_within_limit(50 * 1024 * 1024));
    assert!(!upload_within_limit(50 * 1024 * 1024 + 1));
}

#[test]
fn web_root_confinement() {
    let (root, rel) = webroot_lookup("a.com", "//wp-content/x.php");
    assert_eq!(root, "/var/www/a.com/public_html");
    assert_eq!(rel, "wp-content/x.php");
    let base = "/var/www/a.com/public_html";
    assert_eq!(confine("/var/www/a.com/public_html/x", base), Some("/var/www/a.com/public_html/x".to_string()));
    assert_eq!(confine(base, base), Some(base.to_string()));
    assert_eq!(confine("/var/www/a.com/public_htmlx", base), None);
    assert_eq!(confine("/etc/passwd", base), None);
    assert_eq!(
        new_entry_target(base, "/var/www/a.com/public_html/d", "new.txt"),
        Some("/var/www/a.com/public_html/d/new.txt".to_string())
    );
    assert_eq!(new_entry_target(base, "/var/www", "new.txt"), None);
    assert_eq!(new_entry_target(base, base, ".."), None);
    assert_eq!(webroot_resolve("bad domain", "x"), None);
    assert_eq!(webroot_resolve("a.com", "../x"), None);
    assert_eq!(webroot_existing("a.com", "../x"), None);
}

#[test]
fn php_pool_and_socket_wait() {
    assert_eq!(pool_dirs("83"), ("/etc/opt/remi/php83/php-fpm.d".to_string(), "/etc/php-fpm.d".to_string()));
    assert_eq!(pool_file("/etc/php-fpm.d"), "/etc/php-fpm.d/www.conf");
    assert!(pool_listens("[www]\nlisten = /run/php-fpm/php83.sock\n", "83"));
    assert!(!pool_listens("[www]\nlisten = /run/php-fpm/www.sock\n", "83"));
    assert!(pool_configured(None, Some("listen = /run/php-fpm/php83.sock"), "83"));
    assert!(!pool_configured(None, None, "83"));
    assert!(matches!(socket_wait_step("8.3", 0, true, true), SocketWait::Found(s) if s == "/run/php-fpm/php83.sock"));
    assert!(matches!(socket_wait_step("8.3", 5, false, true), SocketWait::Found(s) if s == "/var/opt/remi/php83/run/php-fpm/www.sock"));
    assert!(matches!(socket_wait_step("8.3", 0, false, false), SocketWait::Wait));
    assert!(matches!(socket_wait_step("8.3", 18, false, false), SocketWait::Wait));
    assert!(matches!(socket_wait_step("8.3", 19, false, false), SocketWait::GiveUp));
}

#[test]
fn archive_entry_types() {
    assert_eq!(typed_listing_command(ArchiveKind::Tgz, "/a b.tgz"), "tar -tvzf '/a b.tgz' 2>/dev/null");
    assert_eq!(typed_listing_command(ArchiveKind::Zip, "x.zip"), "unzip -Z 'x.zip' 2>/dev/null");
    assert_eq!(typed_listing_command(ArchiveKind::SevenZip, "x.7z"), "7z l -ba -slt 'x.7z' 2>/dev/null");
    let tar = "-rw-r--r-- u/g 10 2024-01-01 00:00 a.txt\ndrwxr-xr-x u/g 0 2024-01-01 00:00 d/\n";
    assert_eq!(check_entry_types(tar, false), Ok(()));
    let link = "-rw-r--r-- u/g 10 2024-01-01 00:00 a.txt\nlrwxrwxrwx u/g 0 2024-01-01 00:00 l -> /etc\n";
    assert_eq!(check_entry_types(link, false), Err("lrwxrwxrwx u/g 0 2024-01-01 00:00 l -> /etc".to_string()));
    assert!(check_entry_types("crw-r--r-- u/g 1,3 2024-01-01 00:00 dev\n", false).is_err());
    let zip = "Archive:  x.zip\nZip file size: 10 bytes, number of entries: 1\n-rw-r--r--  3.0 unx  5 tx stor 24-Jan-01 00:00 a\n1 file, 5 bytes uncompressed\n";
    assert_eq!(check_entry_types(zip, false), Ok(()));
    let sz = "Path = a\nAttributes = A_ -rw-r--r--\n\nPath = l\nAttributes = A_ lrwxrwxrwx\n";
    assert_eq!(check_entry_types(sz, true), Err("Attributes = A_ lrwxrwxrwx".to_string()));
    assert_eq!(check_entry_types("Path = a\nAttributes = A_ -rw-r--r--\n", true), Ok(()));
}

#[test]
fn path_joining_and_new_entries() {
    assert_eq!(join_path("/a", "b"), "/a/b");
    assert_eq!(join_path("/a/", "b"), "/a/b");
    assert_eq!(join_path("", "b"), "b");
    assert_eq!(join_path("/a", "/etc"), "/etc");
    assert_eq!(join_path("/a", ""), "/a/");
    for (base, rel) in [("/a", "b/c"), ("/a/", "b"), ("/x", "/y"), ("", "q")] {
        assert_eq!(join_path(base, rel), std::path::Path::new(base).join(rel).to_string_lossy());
    }
    assert_eq!(webroot_new_plan("a.com", ""), None);
    assert_eq!(webroot_new_plan("bad domain", "x"), None);
    assert_eq!(webroot_new_plan("a.com", "../x"), None);
    assert_eq!(webroot_new_target("/", "/", ".."), None);
    assert_eq!(webroot_new_target("/", "/", "a/b"), None);
    assert_eq!(webroot_new_target("/", "/", "new.txt"), Some("/new.txt".to_string()));
    assert_eq!(webroot_new_target("/nonexistent-base", "/", "new.txt"), None);
    assert_eq!(webroot_new_target("/", "/nonexistent-dir-xyz", "new.txt"), None);
}
