use nitpanel::admin::{
    apr1_command, check_f2b_config, check_token, make_token, check_root_change, cmd_exists_command, detect_web_user,
    f2b_install_command, f2b_service_command, htpasswd_line, initial_f2b_config,
    installer_banner, license_key_shape_ok, license_server, license_status_label, license_url,
    mask_license_key, member, normalize_license_key, php_state, pkg_install_command,
    pma_info_note, pma_user_name, server_id, service_action_allowed, service_command,
    session_secret, share_links, token_claims, update_whitelist, whitelist_action,
    whitelist_request, F2bConfigError, RootChangeError, WhitelistAction, WhitelistError,
};
use nitpanel::config::Fail2banConfig;
use nitpanel::parse::parse_pma_info;

fn cfg(ban: i64, find: i64, retry: i32, ips: &[&str]) -> Fail2banConfig {
    Fail2banConfig {
        enabled: true,
        ban_time: ban,
        find_time: find,
        max_retry: retry,
        whitelist_ips: ips.iter().map(|s| s.to_string()).collect(),
    }
}

#[test]
fn fail2ban_settings_checked_in_order() {
    assert!(check_f2b_config(&cfg(3600, 600, 5, &["1.2.3.4"])).is_ok());
    assert!(check_f2b_config(&cfg(-1, 60, 1, &[])).is_ok());
    assert!(check_f2b_config(&cfg(2592000, 86400, 20, &[])).is_ok());
    assert!(matches!(check_f2b_config(&cfg(-2, 10, 0, &["x y"])), Err(F2bConfigError::BanTime)));
    assert!(matches!(check_f2b_config(&cfg(2592001, 600, 5, &[])), Err(F2bConfigError::BanTime)));
    assert!(matches!(check_f2b_config(&cfg(3600, 59, 0, &[])), Err(F2bConfigError::FindTime)));
    assert!(matches!(check_f2b_config(&cfg(3600, 86401, 5, &[])), Err(F2bConfigError::FindTime)));
    assert!(matches!(check_f2b_config(&cfg(3600, 600, 0, &["x y"])), Err(F2bConfigError::MaxRetry)));
    assert!(matches!(check_f2b_config(&cfg(3600, 600, 21, &[])), Err(F2bConfigError::MaxRetry)));
    match check_f2b_config(&cfg(3600, 600, 5, &["1.1.1.1", "bad ip", "also;bad"])) {
        Err(F2bConfigError::InvalidIp(ip)) => assert_eq!(ip, "bad ip"),
        other => panic!("unexpected {:?}", other),
    }
}

#[test]
fn fresh_fail2ban_settings() {
    let c = initial_f2b_config();
    assert!(!c.enabled);
    assert_eq!((c.ban_time, c.find_time, c.max_retry), (3600, 600, 5));
    assert!(c.whitelist_ips.is_empty());
    assert!(check_f2b_config(&c).is_ok());
}

#[test]
fn whitelist_words() {
    assert_eq!(whitelist_action("add"), Some(WhitelistAction::Add));
    assert_eq!(whitelist_action("remove"), Some(WhitelistAction::Remove));
    assert_eq!(whitelist_action("ADD"), None);
    assert_eq!(whitelist_action(""), None);
}

#[test]
fn whitelist_changes() {
    let mut ips: Vec<String> = vec!["1.1.1.1".into(), "2.2.2.2".into(), "1.1.1.1".into()];
    update_whitelist(&mut ips, "3.3.3.3", WhitelistAction::Add);
    assert_eq!(ips, vec!["1.1.1.1", "2.2.2.2", "1.1.1.1", "3.3.3.3"]);
    update_whitelist(&mut ips, "3.3.3.3", WhitelistAction::Add);
    assert_eq!(ips.len(), 4);
    update_whitelist(&mut ips, "1.1.1.1", WhitelistAction::Remove);
    assert_eq!(ips, vec!["2.2.2.2", "3.3.3.3"]);
    update_whitelist(&mut ips, "9.9.9.9", WhitelistAction::Remove);
    assert_eq!(ips, vec!["2.2.2.2", "3.3.3.3"]);
}

#[test]
fn whitelist_add_then_remove_restores() {
    let orig: Vec<String> = vec!["1.1.1.1".into(), "2.2.2.2".into()];
    let mut ips = orig.clone();
    update_whitelist(&mut ips, "5.5.5.5", WhitelistAction::Add);
    assert!(ips.contains(&"5.5.5.5".to_string()));
    update_whitelist(&mut ips, "5.5.5.5", WhitelistAction::Remove);
    assert_eq!(ips, orig);
}

#[test]
fn whitelist_requests() {
    let mut c = cfg(3600, 600, 5, &["1.1.1.1"]);
    assert!(matches!(whitelist_request(&mut c, "bad ip", "add"), Err(WhitelistError::InvalidIp)));
    assert!(matches!(whitelist_request(&mut c, "bad ip", "zap"), Err(WhitelistError::InvalidIp)));
    assert!(matches!(whitelist_request(&mut c, "2.2.2.2", "zap"), Err(WhitelistError::BadAction)));
    assert_eq!(c.whitelist_ips, vec!["1.1.1.1"]);
    assert!(whitelist_request(&mut c, "2.2.2.2", "add").is_ok());
    assert_eq!(c.whitelist_ips, vec!["1.1.1.1", "2.2.2.2"]);
    assert!(whitelist_request(&mut c, "1.1.1.1", "remove").is_ok());
    assert_eq!(c.whitelist_ips, vec!["2.2.2.2"]);
    assert_eq!((c.ban_time, c.find_time, c.max_retry, c.enabled), (3600, 600, 5, true));
}

#[test]
fn service_control() {
    assert!(service_action_allowed("nginx", "restart"));
    assert!(service_action_allowed("php84-php-fpm", "status"));
    assert!(!service_action_allowed("sshd", "restart"));
    assert!(!service_action_allowed("nginx", "kill"));
    assert_eq!(service_command("restart", "nginx"), "systemctl 'restart' 'nginx' 2>&1");
    assert!(member("b", &vec!["a", "b"]));
    assert!(!member("c", &vec!["a", "b"]));
}

#[test]
fn php_states() {
    assert_eq!(php_state("active", true), "active");
    assert_eq!(php_state("active", false), "active-nosocket");
    assert_eq!(php_state("inactive", true), "inactive");
    assert_eq!(php_state("", false), "");
}

#[test]
fn web_server_user() {
    assert_eq!(detect_web_user(None), "nginx");
    assert_eq!(detect_web_user(Some("root:x:0:0::/root:/bin/bash\n")), "nginx");
    assert_eq!(detect_web_user(Some("root:x:0:0\napache:x:48:48\n")), "apache");
    assert_eq!(detect_web_user(Some("www-data:x:33\napache:x:48\n")), "apache");
    assert_eq!(detect_web_user(Some("www-data:x:33:33\n")), "www-data");
    assert_eq!(detect_web_user(Some("apache:x\nnginx:x\n")), "nginx");
    assert_eq!(detect_web_user(Some(" nginx:x\n")), "nginx");
}

#[test]
fn licence_keys() {
    assert_eq!(normalize_license_key("  nit-abcd-efgh-ijkl-mnop \n"), "NIT-ABCD-EFGH-IJKL-MNOP");
    assert!(license_key_shape_ok("NIT-ABCD-EFGH-IJKL-MNOP"));
    assert!(!license_key_shape_ok("NIT-ABCD-EFGH-IJKL-MNO"));
    assert!(!license_key_shape_ok("XIT-ABCD-EFGH-IJKL-MNOP"));
    assert_eq!(mask_license_key("NIT-ABCD-EFGH-IJKL-MNOP"), "NIT-****-****-****MNOP");
    assert_eq!(mask_license_key("NIT-1234567"), "NIT-1234567");
    assert_eq!(mask_license_key("ABCD1234WXYZ"), "ABCD****-****-****WXYZ");
    assert_eq!(license_status_label(true), "Pro License - Ho tro uu tien");
    assert_eq!(license_status_label(false), "Free - Ho tro cong dong");
}

#[test]
fn licence_masking_matches_replace_range() {
    for key in ["NIT-ABCD-EFGH-IJKL-MNOP", "abcdefghijkl", "ééé-abcd-xyz1"] {
        let mut expected = key.to_string();
        if expected.len() > 11 && expected.is_char_boundary(4) && expected.is_char_boundary(expected.len() - 4) {
            let n = expected.len();
            expected.replace_range(4..n - 4, "****-****-****");
            assert_eq!(mask_license_key(key), expected, "{}", key);
        }
    }
}

#[test]
fn licence_server_and_identity() {
    assert_eq!(license_server(None), "https://license.netihot.com");
    assert_eq!(license_server(Some("http://localhost:9000")), "http://localhost:9000");
    assert_eq!(license_url("https://l.example", "activate"), "https://l.example/api/v1/activate");
    assert_eq!(server_id(Some(" 0123abcd \n")), "0123abcd");
    assert_eq!(server_id(Some("  \n")), "unknown");
    assert_eq!(server_id(None), "unknown");
}

#[test]
fn secrets_and_tokens() {
    assert_eq!(session_secret(Some("configured")), "configured");
    let s = session_secret(None);
    assert_eq!(s.len(), 48);
    assert!(s.chars().all(|c| c.is_ascii_alphanumeric()));
    let c = token_claims(1_700_000_000);
    assert_eq!(c.sub, "admin");
    assert_eq!(c.iat, 1_700_000_000);
    assert_eq!(c.exp, 1_700_014_400);
}

#[test]
fn root_password_change_checks() {
    assert_eq!(check_root_change("", "Valid.Pass123"), Err(RootChangeError::MissingAdminPassword));
    assert_eq!(check_root_change("", "x"), Err(RootChangeError::MissingAdminPassword));
    assert_eq!(check_root_change("admin", "short"), Err(RootChangeError::WeakPassword));
    assert_eq!(check_root_change("admin", "has'quote12345"), Err(RootChangeError::WeakPassword));
    assert_eq!(check_root_change("admin", "Valid.Pass123"), Ok(()));
}

#[test]
fn shared_phpmyadmin_login() {
    assert_eq!(pma_user_name("AbC12xYz"), "pma_abc12xyz");
    assert_eq!(apr1_command("p'w"), "openssl passwd -apr1 'p'\"'\"'w'");
    assert_eq!(htpasswd_line("pma_x", "  $apr1$salt$hash\n"), "pma_x:$apr1$salt$hash\n");
    let note = pma_info_note("pma_x", "Secret24");
    assert_eq!(note, "user=pma_x\npassword=Secret24\n");
    assert_eq!(parse_pma_info(&note), Some(("pma_x".to_string(), "Secret24".to_string())));
}

#[test]
fn fail2ban_service_and_install() {
    assert_eq!(
        f2b_service_command(true),
        "systemctl enable fail2ban 2>&1 && (systemctl reload fail2ban 2>&1 || systemctl restart fail2ban 2>&1)"
    );
    assert_eq!(
        f2b_service_command(false),
        "systemctl stop fail2ban 2>/dev/null; systemctl disable fail2ban 2>/dev/null; echo 'Fail2ban disabled'"
    );
    assert_eq!(
        f2b_install_command("/var/log/nitpanel/install_fail2ban.log"),
        "nohup bash -c 'dnf install -y epel-release 2>/dev/null; dnf install -y fail2ban fail2ban-systemd 2>&1; systemctl enable fail2ban; systemctl start fail2ban; fail2ban-client status 2>&1' > '/var/log/nitpanel/install_fail2ban.log' 2>&1 &"
    );
}

#[test]
fn package_commands() {
    assert_eq!(cmd_exists_command("unzip"), "command -v 'unzip' >/dev/null 2>&1");
    assert_eq!(pkg_install_command("xz"), "dnf install -y --setopt=logdir=/tmp 'xz' 2>&1 | tail -3");
}

#[test]
fn sharing_the_installer() {
    assert_eq!(
        installer_banner(true, "panel.example.com"),
        "# NITPANEL one-line installer  (served by https://panel.example.com)\n"
    );
    assert_eq!(installer_banner(false, "1.2.3.4:8765"), "# NITPANEL one-line installer  (served by http://1.2.3.4:8765)\n");
    let l = share_links("1.2.3.4", "panel.example.com");
    assert_eq!(l.url_ip, "http://1.2.3.4:8765/install.sh");
    assert_eq!(l.url_host, "http://panel.example.com/install.sh");
    assert_eq!(l.command_ip, "curl -fsSL http://1.2.3.4:8765/install.sh | sudo bash");
    assert_eq!(l.command_host, "curl -fsSL http://panel.example.com/install.sh | sudo bash");
}

fn signed_token(secret: &str, exp: u64) -> String {
    let mut claims: std::collections::HashMap<String, serde_json::Value> = std::collections::HashMap::new();
    claims.insert("sub".to_string(), serde_json::Value::from("admin"));
    claims.insert("exp".to_string(), serde_json::Value::from(exp));
    claims.insert("iat".to_string(), serde_json::Value::from(exp - 14400));
    jsonwebtoken::encode(
        &jsonwebtoken::Header::default(),
        &claims,
        &jsonwebtoken::EncodingKey::from_secret(secret.as_bytes()),
    )
    .unwrap()
}

#[test]
fn session_tokens_checked() {
    let tok = signed_token("s3cret-value", 20000);
    assert!(check_token(&tok, "s3cret-value", 19999));
    assert!(check_token(&tok, "s3cret-value", 20000));
    assert!(!check_token(&tok, "s3cret-value", 20001));
    assert!(!check_token(&tok, "other-secret", 100));
    assert!(!check_token("not.a.token", "s3cret-value", 100));
    assert!(!check_token("", "s3cret-value", 100));
}

#[test]
fn issued_tokens_live_four_hours() {
    let tok = make_token(1_000, "panel-secret");
    assert!(!tok.is_empty());
    assert!(check_token(&tok, "panel-secret", 1_000));
    assert!(check_token(&tok, "panel-secret", 15_400));
    assert!(!check_token(&tok, "panel-secret", 15_401));
    assert!(!check_token(&tok, "another-secret", 1_000));
    assert_eq!(make_token(1_000, "panel-secret"), tok);
}
