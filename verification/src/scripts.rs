//! The shell scripts that install software on the server: one package at a
//! time, or the whole stack at once.
use vstd::prelude::*;
use crate::config::{php_fpm_pool_conf, pool_conf_text};
use crate::sanitize::{ident_of, no_dots, sanitize_ident, shell_escape, shell_quoted, vn};
use crate::sites::{mysql_version_supported, mysql_versions, php_version_supported, php_versions};
use crate::parse::views;
use crate::text::{owned, push_str, str_eq};

verus! {

// ───────────────────────── single packages ─────────────────────────

/// The script that installs PHP `ver` from the Remi repository, writes its pool file (run as `user`) and starts it.
pub open spec fn php_install_text(ver: Seq<char>, user: Seq<char>) -> Seq<char> {
    Seq::<char>::empty()
        + r##"set -e
dnf --setopt=logdir=/tmp --setopt=logfile=/tmp/dnf_nitpanel.log install -y epel-release || true
dnf --setopt=logdir=/tmp --setopt=logfile=/tmp/dnf_nitpanel.log install -y https://rpms.remirepo.net/enterprise/remi-release-9.rpm || true
dnf --setopt=logdir=/tmp --setopt=logfile=/tmp/dnf_nitpanel.log install -y php"##@
        + no_dots(ver)
        + r##"-php-fpm php"##@
        + no_dots(ver)
        + r##"-php-cli php"##@
        + no_dots(ver)
        + r##"-php-mysqlnd php"##@
        + no_dots(ver)
        + r##"-php-gd php"##@
        + no_dots(ver)
        + r##"-php-curl php"##@
        + no_dots(ver)
        + r##"-php-mbstring php"##@
        + no_dots(ver)
        + r##"-php-xml php"##@
        + no_dots(ver)
        + r##"-php-zip php"##@
        + no_dots(ver)
        + r##"-php-opcache php"##@
        + no_dots(ver)
        + r##"-php-bcmath php"##@
        + no_dots(ver)
        + r##"-php-intl php"##@
        + no_dots(ver)
        + r##"-php-redis
mkdir -p /run/php-fpm
chown "##@
        + user
        + r##":"##@
        + user
        + r##" /run/php-fpm 2>/dev/null || true
POOL_DIR=/etc/opt/remi/php"##@
        + no_dots(ver)
        + r##"/php-fpm.d
[ -d "$POOL_DIR" ] || POOL_DIR=$(dirname $(find /etc -name "www.conf" -path "*php"##@
        + no_dots(ver)
        + r##"*" 2>/dev/null | head -1))
if [ -d "$POOL_DIR" ]; then
  cat > "$POOL_DIR/www.conf" <<'POOLEOF'
"##@
        + pool_conf_text(no_dots(ver), user)
        + r##"POOLEOF
fi
PHP_SVC="php"##@
        + no_dots(ver)
        + r##"-php-fpm"
systemctl daemon-reload 2>/dev/null
systemctl enable $PHP_SVC 2>/dev/null
systemctl restart $PHP_SVC 2>/dev/null
sleep 1
echo "PHP "##@
        + ver
        + r##": $(systemctl is-active $PHP_SVC 2>/dev/null)"
ls -l /run/php-fpm/php"##@
        + no_dots(ver)
        + r##".sock 2>/dev/null || echo "Socket not created yet"
"##@
}

/// Renders the PHP install script.
fn php_install_script(ver: &str, user: &str) -> (r: String)
    ensures
        r@ == php_install_text(ver@, user@),
{
    let n = vn(ver);
    let pool = php_fpm_pool_conf(ver, user);
    let mut s = String::new();
    push_str(&mut s, r##"set -e
dnf --setopt=logdir=/tmp --setopt=logfile=/tmp/dnf_nitpanel.log install -y epel-release || true
dnf --setopt=logdir=/tmp --setopt=logfile=/tmp/dnf_nitpanel.log install -y https://rpms.remirepo.net/enterprise/remi-release-9.rpm || true
dnf --setopt=logdir=/tmp --setopt=logfile=/tmp/dnf_nitpanel.log install -y php"##);
    push_str(&mut s, n.as_str());
    push_str(&mut s, r##"-php-fpm php"##);
    push_str(&mut s, n.as_str());
    push_str(&mut s, r##"-php-cli php"##);
    push_str(&mut s, n.as_str());
    push_str(&mut s, r##"-php-mysqlnd php"##);
    push_str(&mut s, n.as_str());
    push_str(&mut s, r##"-php-gd php"##);
    push_str(&mut s, n.as_str());
    push_str(&mut s, r##"-php-curl php"##);
    push_str(&mut s, n.as_str());
    push_str(&mut s, r##"-php-mbstring php"##);
    push_str(&mut s, n.as_str());
    push_str(&mut s, r##"-php-xml php"##);
    push_str(&mut s, n.as_str());
    push_str(&mut s, r##"-php-zip php"##);
    push_str(&mut s, n.as_str());
    push_str(&mut s, r##"-php-opcache php"##);
    push_str(&mut s, n.as_str());
    push_str(&mut s, r##"-php-bcmath php"##);
    push_str(&mut s, n.as_str());
    push_str(&mut s, r##"-php-intl php"##);
    push_str(&mut s, n.as_str());
    push_str(&mut s, r##"-php-redis
mkdir -p /run/php-fpm
chown "##);
    push_str(&mut s, user);
    push_str(&mut s, r##":"##);
    push_str(&mut s, user);
    push_str(&mut s, r##" /run/php-fpm 2>/dev/null || true
POOL_DIR=/etc/opt/remi/php"##);
    push_str(&mut s, n.as_str());
    push_str(&mut s, r##"/php-fpm.d
[ -d "$POOL_DIR" ] || POOL_DIR=$(dirname $(find /etc -name "www.conf" -path "*php"##);
    push_str(&mut s, n.as_str());
    push_str(&mut s, r##"*" 2>/dev/null | head -1))
if [ -d "$POOL_DIR" ]; then
  cat > "$POOL_DIR/www.conf" <<'POOLEOF'
"##);
    push_str(&mut s, pool.as_str());
    push_str(&mut s, r##"POOLEOF
fi
PHP_SVC="php"##);
    push_str(&mut s, n.as_str());
    push_str(&mut s, r##"-php-fpm"
systemctl daemon-reload 2>/dev/null
systemctl enable $PHP_SVC 2>/dev/null
systemctl restart $PHP_SVC 2>/dev/null
sleep 1
echo "PHP "##);
    push_str(&mut s, ver);
    push_str(&mut s, r##": $(systemctl is-active $PHP_SVC 2>/dev/null)"
ls -l /run/php-fpm/php"##);
    push_str(&mut s, n.as_str());
    push_str(&mut s, r##".sock 2>/dev/null || echo "Socket not created yet"
"##);
    s
}
/// The script that installs MySQL 8.4 from the vendor repository.
pub open spec fn mysql84_install_text() -> Seq<char> {
    r##"set -e
dnf --setopt=logdir=/tmp --setopt=logfile=/tmp/dnf_nitpanel.log install -y https://dev.mysql.com/get/mysql84-community-release-el9-1.noarch.rpm || true
dnf --setopt=logdir=/tmp --setopt=logfile=/tmp/dnf_nitpanel.log module disable mysql -y 2>/dev/null || true
dnf --setopt=logdir=/tmp --setopt=logfile=/tmp/dnf_nitpanel.log install -y mysql-community-server
systemctl enable mysqld
systemctl start mysqld
sleep 3
echo "MySQL: $(systemctl is-active mysqld)"
echo "Temp pass: $(grep 'temporary password' /var/log/mysqld.log 2>/dev/null | tail -1 | awk '{print $NF}')""##@
}

fn mysql84_install() -> (r: &'static str)
    ensures
        r@ == mysql84_install_text(),
{
    r##"set -e
dnf --setopt=logdir=/tmp --setopt=logfile=/tmp/dnf_nitpanel.log install -y https://dev.mysql.com/get/mysql84-community-release-el9-1.noarch.rpm || true
dnf --setopt=logdir=/tmp --setopt=logfile=/tmp/dnf_nitpanel.log module disable mysql -y 2>/dev/null || true
dnf --setopt=logdir=/tmp --setopt=logfile=/tmp/dnf_nitpanel.log install -y mysql-community-server
systemctl enable mysqld
systemctl start mysqld
sleep 3
echo "MySQL: $(systemctl is-active mysqld)"
echo "Temp pass: $(grep 'temporary password' /var/log/mysqld.log 2>/dev/null | tail -1 | awk '{print $NF}')""##
}

/// The script that installs MySQL 9.0 from the vendor repository.
pub open spec fn mysql90_install_text() -> Seq<char> {
    r##"set -e
dnf --setopt=logdir=/tmp --setopt=logfile=/tmp/dnf_nitpanel.log install -y https://dev.mysql.com/get/mysql90-community-release-el9-1.noarch.rpm || true
dnf --setopt=logdir=/tmp --setopt=logfile=/tmp/dnf_nitpanel.log module disable mysql -y 2>/dev/null || true
dnf --setopt=logdir=/tmp --setopt=logfile=/tmp/dnf_nitpanel.log install -y mysql-community-server
systemctl enable mysqld
systemctl start mysqld
sleep 3
echo "MySQL: $(systemctl is-active mysqld)"
echo "Temp pass: $(grep 'temporary password' /var/log/mysqld.log 2>/dev/null | tail -1 | awk '{print $NF}')""##@
}

fn mysql90_install() -> (r: &'static str)
    ensures
        r@ == mysql90_install_text(),
{
    r##"set -e
dnf --setopt=logdir=/tmp --setopt=logfile=/tmp/dnf_nitpanel.log install -y https://dev.mysql.com/get/mysql90-community-release-el9-1.noarch.rpm || true
dnf --setopt=logdir=/tmp --setopt=logfile=/tmp/dnf_nitpanel.log module disable mysql -y 2>/dev/null || true
dnf --setopt=logdir=/tmp --setopt=logfile=/tmp/dnf_nitpanel.log install -y mysql-community-server
systemctl enable mysqld
systemctl start mysqld
sleep 3
echo "MySQL: $(systemctl is-active mysqld)"
echo "Temp pass: $(grep 'temporary password' /var/log/mysqld.log 2>/dev/null | tail -1 | awk '{print $NF}')""##
}

/// The command that installs phpMyAdmin.
pub open spec fn phpmyadmin_install_text() -> Seq<char> {
    r##"dnf --setopt=logdir=/tmp --setopt=logfile=/tmp/dnf_nitpanel.log install -y epel-release || true; dnf --setopt=logdir=/tmp --setopt=logfile=/tmp/dnf_nitpanel.log install -y phpMyAdmin"##@
}

fn phpmyadmin_install() -> (r: &'static str)
    ensures
        r@ == phpmyadmin_install_text(),
{
    r##"dnf --setopt=logdir=/tmp --setopt=logfile=/tmp/dnf_nitpanel.log install -y epel-release || true; dnf --setopt=logdir=/tmp --setopt=logfile=/tmp/dnf_nitpanel.log install -y phpMyAdmin"##
}

/// The command that installs certbot and its nginx plugin.
pub open spec fn certbot_install_text() -> Seq<char> {
    r##"dnf --setopt=logdir=/tmp --setopt=logfile=/tmp/dnf_nitpanel.log install -y epel-release || true; dnf --setopt=logdir=/tmp --setopt=logfile=/tmp/dnf_nitpanel.log install -y certbot python3-certbot-nginx"##@
}

fn certbot_install() -> (r: &'static str)
    ensures
        r@ == certbot_install_text(),
{
    r##"dnf --setopt=logdir=/tmp --setopt=logfile=/tmp/dnf_nitpanel.log install -y epel-release || true; dnf --setopt=logdir=/tmp --setopt=logfile=/tmp/dnf_nitpanel.log install -y certbot python3-certbot-nginx"##
}

/// The command that installs and starts nginx.
pub open spec fn nginx_install_text() -> Seq<char> {
    r##"dnf --setopt=logdir=/tmp --setopt=logfile=/tmp/dnf_nitpanel.log install -y nginx; systemctl enable nginx; systemctl start nginx; mkdir -p /etc/nginx/conf.d; echo 'Nginx: '$(systemctl is-active nginx)"##@
}

fn nginx_install() -> (r: &'static str)
    ensures
        r@ == nginx_install_text(),
{
    r##"dnf --setopt=logdir=/tmp --setopt=logfile=/tmp/dnf_nitpanel.log install -y nginx; systemctl enable nginx; systemctl start nginx; mkdir -p /etc/nginx/conf.d; echo 'Nginx: '$(systemctl is-active nginx)"##
}

/// The command that installs and starts fail2ban.
pub open spec fn fail2ban_install_text() -> Seq<char> {
    r##"dnf --setopt=logdir=/tmp --setopt=logfile=/tmp/dnf_nitpanel.log install -y epel-release || true; dnf --setopt=logdir=/tmp --setopt=logfile=/tmp/dnf_nitpanel.log install -y fail2ban fail2ban-systemd; systemctl enable fail2ban; systemctl start fail2ban; echo 'Fail2ban: '$(systemctl is-active fail2ban)"##@
}

fn fail2ban_install() -> (r: &'static str)
    ensures
        r@ == fail2ban_install_text(),
{
    r##"dnf --setopt=logdir=/tmp --setopt=logfile=/tmp/dnf_nitpanel.log install -y epel-release || true; dnf --setopt=logdir=/tmp --setopt=logfile=/tmp/dnf_nitpanel.log install -y fail2ban fail2ban-systemd; systemctl enable fail2ban; systemctl start fail2ban; echo 'Fail2ban: '$(systemctl is-active fail2ban)"##
}

/// The script that installs redis bound to localhost with a random password, and notes the password.
pub open spec fn redis_install_text() -> Seq<char> {
    r##"set -e
dnf --setopt=logdir=/tmp --setopt=logfile=/tmp/dnf_nitpanel.log install -y epel-release || true
dnf --setopt=logdir=/tmp --setopt=logfile=/tmp/dnf_nitpanel.log install -y redis || true
# Secure Redis config
REDIS_CONF=/etc/redis/redis.conf
REDIS_PASS=$(tr -dc 'A-Za-z0-9' </dev/urandom | head -c 32)
cp $REDIS_CONF $REDIS_CONF.bak 2>/dev/null || true
sed -i 's/^bind .*/bind 127.0.0.1/' $REDIS_CONF
sed -i 's/^protected-mode .*/protected-mode yes/' $REDIS_CONF
if grep -q "^requirepass" $REDIS_CONF; then
  sed -i "s/^requirepass .*/requirepass $REDIS_PASS/" $REDIS_CONF
else
  echo "requirepass $REDIS_PASS" >> $REDIS_CONF
fi
# Rename dangerous commands
cat >> $REDIS_CONF <<CFGEOF
rename-command FLUSHDB ""
rename-command FLUSHALL ""
rename-command DEBUG ""
rename-command CONFIG ""
rename-command SHUTDOWN ""
rename-command KEYS ""
CFGEOF
# Save credentials
mkdir -p /etc/nitpanel
cat > /etc/nitpanel/redis.conf <<EOF
host: 127.0.0.1
port: 6379
password: $REDIS_PASS
EOF
chmod 600 /etc/nitpanel/redis.conf
systemctl enable redis 2>/dev/null
systemctl restart redis 2>/dev/null
sleep 1
echo "Redis: $(systemctl is-active redis)"
echo "Redis password saved to /etc/nitpanel/redis.conf"
"##@
}

fn redis_install() -> (r: &'static str)
    ensures
        r@ == redis_install_text(),
{
    r##"set -e
dnf --setopt=logdir=/tmp --setopt=logfile=/tmp/dnf_nitpanel.log install -y epel-release || true
dnf --setopt=logdir=/tmp --setopt=logfile=/tmp/dnf_nitpanel.log install -y redis || true
# Secure Redis config
REDIS_CONF=/etc/redis/redis.conf
REDIS_PASS=$(tr -dc 'A-Za-z0-9' </dev/urandom | head -c 32)
cp $REDIS_CONF $REDIS_CONF.bak 2>/dev/null || true
sed -i 's/^bind .*/bind 127.0.0.1/' $REDIS_CONF
sed -i 's/^protected-mode .*/protected-mode yes/' $REDIS_CONF
if grep -q "^requirepass" $REDIS_CONF; then
  sed -i "s/^requirepass .*/requirepass $REDIS_PASS/" $REDIS_CONF
else
  echo "requirepass $REDIS_PASS" >> $REDIS_CONF
fi
# Rename dangerous commands
cat >> $REDIS_CONF <<CFGEOF
rename-command FLUSHDB ""
rename-command FLUSHALL ""
rename-command DEBUG ""
rename-command CONFIG ""
rename-command SHUTDOWN ""
rename-command KEYS ""
CFGEOF
# Save credentials
mkdir -p /etc/nitpanel
cat > /etc/nitpanel/redis.conf <<EOF
host: 127.0.0.1
port: 6379
password: $REDIS_PASS
EOF
chmod 600 /etc/nitpanel/redis.conf
systemctl enable redis 2>/dev/null
systemctl restart redis 2>/dev/null
sleep 1
echo "Redis: $(systemctl is-active redis)"
echo "Redis password saved to /etc/nitpanel/redis.conf"
"##
}


/// The install script for a package, by the package's name; `None` for a
/// name the panel does not know.
pub open spec fn install_script_text(pkg: Seq<char>, user: Seq<char>) -> Option<Seq<char>> {
    if pkg == "mysql84"@ {
        Some(mysql84_install_text())
    } else if pkg == "mysql90"@ {
        Some(mysql90_install_text())
    } else if pkg == "php74"@ {
        Some(php_install_text("7.4"@, user))
    } else if pkg == "php80"@ {
        Some(php_install_text("8.0"@, user))
    } else if pkg == "php81"@ {
        Some(php_install_text("8.1"@, user))
    } else if pkg == "php82"@ {
        Some(php_install_text("8.2"@, user))
    } else if pkg == "php83"@ {
        Some(php_install_text("8.3"@, user))
    } else if pkg == "php84"@ {
        Some(php_install_text("8.4"@, user))
    } else if pkg == "phpmyadmin"@ {
        Some(phpmyadmin_install_text())
    } else if pkg == "certbot"@ {
        Some(certbot_install_text())
    } else if pkg == "nginx"@ {
        Some(nginx_install_text())
    } else if pkg == "fail2ban"@ {
        Some(fail2ban_install_text())
    } else if pkg == "redis"@ {
        Some(redis_install_text())
    } else {
        None
    }
}

/// The install script for package `pkg`, PHP pools run as `user`.
pub fn install_script(pkg: &str, user: &str) -> (r: Option<String>)
    ensures
        match r {
            Some(s) => install_script_text(pkg@, user@) == Some(s@),
            None => install_script_text(pkg@, user@) is None,
        },
{
    if str_eq(pkg, "mysql84") {
        Some(owned(mysql84_install()))
    } else if str_eq(pkg, "mysql90") {
        Some(owned(mysql90_install()))
    } else if str_eq(pkg, "php74") {
        Some(php_install_script("7.4", user))
    } else if str_eq(pkg, "php80") {
        Some(php_install_script("8.0", user))
    } else if str_eq(pkg, "php81") {
        Some(php_install_script("8.1", user))
    } else if str_eq(pkg, "php82") {
        Some(php_install_script("8.2", user))
    } else if str_eq(pkg, "php83") {
        Some(php_install_script("8.3", user))
    } else if str_eq(pkg, "php84") {
        Some(php_install_script("8.4", user))
    } else if str_eq(pkg, "phpmyadmin") {
        Some(owned(phpmyadmin_install()))
    } else if str_eq(pkg, "certbot") {
        Some(owned(certbot_install()))
    } else if str_eq(pkg, "nginx") {
        Some(owned(nginx_install()))
    } else if str_eq(pkg, "fail2ban") {
        Some(owned(fail2ban_install()))
    } else if str_eq(pkg, "redis") {
        Some(owned(redis_install()))
    } else {
        None
    }
}

/// How an install runs: the script file, where it is written, where its
/// output goes and the command that starts it in the background.
pub struct InstallJob {
    pub script: String,
    pub script_path: String,
    pub log_path: String,
    pub launch: String,
}

pub open spec fn install_log_text(pkg: Seq<char>) -> Seq<char> {
    "/var/log/nitpanel/install_"@ + ident_of(pkg) + ".log"@
}

pub open spec fn install_script_path_text(pkg: Seq<char>) -> Seq<char> {
    "/tmp/nit_install_"@ + ident_of(pkg) + ".sh"@
}

pub open spec fn launch_text(script_path: Seq<char>, log: Seq<char>) -> Seq<char> {
    "nohup bash "@ + shell_quoted(script_path) + " > "@ + shell_quoted(log) + " 2>&1 &"@
}

/// The log file of a package's install.
pub fn install_log(pkg: &str) -> (r: String)
    ensures
        r@ == install_log_text(pkg@),
{
    let id = sanitize_ident(pkg);
    let mut s = owned("/var/log/nitpanel/install_");
    push_str(&mut s, id.as_str());
    push_str(&mut s, ".log");
    assert(s@ =~= install_log_text(pkg@));
    s
}

/// Plans the install of package `pkg`: `None` when the package is unknown.
pub fn install_job(pkg: &str, user: &str) -> (r: Option<InstallJob>)
    ensures
        install_script_text(pkg@, user@) is None <==> r is None,
        r matches Some(j) ==> {
            &&& j.script@ == "#!/bin/bash\nset -o pipefail\n"@ + install_script_text(
                pkg@,
                user@,
            )->0
            &&& j.script_path@ == install_script_path_text(pkg@)
            &&& j.log_path@ == install_log_text(pkg@)
            &&& j.launch@ == launch_text(j.script_path@, j.log_path@)
        },
{
    let body = match install_script(pkg, user) {
        Some(b) => b,
        None => return None,
    };
    let mut script = owned("#!/bin/bash\nset -o pipefail\n");
    push_str(&mut script, body.as_str());
    let id = sanitize_ident(pkg);
    let mut path = owned("/tmp/nit_install_");
    push_str(&mut path, id.as_str());
    push_str(&mut path, ".sh");
    let log = install_log(pkg);
    let mut launch = owned("nohup bash ");
    push_str(&mut launch, shell_escape(path.as_str()).as_str());
    push_str(&mut launch, " > ");
    push_str(&mut launch, shell_escape(log.as_str()).as_str());
    push_str(&mut launch, " 2>&1 &");
    assert(path@ =~= install_script_path_text(pkg@));
    assert(launch@ =~= launch_text(path@, log@));
    assert(script@ =~= "#!/bin/bash\nset -o pipefail\n"@ + body@);
    Some(InstallJob { script, script_path: path, log_path: log, launch })
}

// ───────────────────────── the whole stack ─────────────────────────

/// The start of the stack script: nginx, MySQL `mv` from `repo` with a generated root password, EPEL and Remi.
pub open spec fn stack_head_text(mv: Seq<char>, repo: Seq<char>, user: Seq<char>) -> Seq<char> {
    Seq::<char>::empty()
        + r##"#!/bin/bash
set -o pipefail
export DNF_OPTS="--setopt=logdir=/tmp --setopt=logfile=/tmp/dnf.log"

echo "[$(date)] === Install Nginx ==="
dnf install -y $DNF_OPTS nginx
systemctl enable nginx 2>/dev/null
systemctl start  nginx 2>/dev/null
mkdir -p /etc/nginx/conf.d /var/www
echo "Nginx: $(systemctl is-active nginx)"

echo "[$(date)] === Install MySQL "##@
        + mv
        + r##" ==="
dnf install -y $DNF_OPTS "##@
        + repo
        + r##" || true
dnf module disable mysql -y $DNF_OPTS 2>/dev/null || true
dnf install -y $DNF_OPTS mysql-community-server
systemctl enable mysqld 2>/dev/null
systemctl start  mysqld 2>/dev/null
sleep 3
TMPPASS=$(grep 'temporary password' /var/log/mysqld.log 2>/dev/null | tail -1 | awk '{print $NF}')
echo "MySQL: $(systemctl is-active mysqld)"
echo "Temp password length: ${#TMPPASS}"

# Set MySQL root password (idempotent + verify)
ROOT_CNF=/etc/nitpanel/mysql_root.cnf
if [ ! -f "$ROOT_CNF" ]; then
  # Password mới: chỉ alphanumeric (no special chars) → tránh mọi rắc rối với .cnf parsing
  NEW_ROOT_PASS=$(cat /dev/urandom | tr -dc 'A-Za-z0-9' | head -c 24)

  # GIẢI PHÁP TRIỆT ĐỂ: dùng init-file để bypass HOÀN TOÀN validate_password
  # MySQL chạy file SQL này lúc startup với SUPER privilege, KHÔNG bị policy chặn
  INIT_SQL=$(mktemp /tmp/mysql_init_XXXXXX.sql)
  chmod 644 "$INIT_SQL"  # mysql user phải đọc được
  cat > "$INIT_SQL" <<INITEOF
ALTER USER 'root'@'localhost' IDENTIFIED WITH caching_sha2_password BY '${NEW_ROOT_PASS}';
SET GLOBAL validate_password.policy = LOW;
SET GLOBAL validate_password.length = 4;
FLUSH PRIVILEGES;
INITEOF

  # Restart MySQL với --init-file → tự động chạy SQL trên với quyền SUPER
  systemctl stop mysqld
  sleep 2

  # Override systemd để pass --init-file
  mkdir -p /etc/systemd/system/mysqld.service.d
  cat > /etc/systemd/system/mysqld.service.d/init.conf <<SYSEOF
[Service]
ExecStart=
ExecStart=/usr/sbin/mysqld --init-file=$INIT_SQL --user=mysql
SYSEOF
  systemctl daemon-reload
  systemctl start mysqld
  sleep 4

  # Xóa override, restart bình thường
  rm -f /etc/systemd/system/mysqld.service.d/init.conf
  systemctl daemon-reload
  systemctl restart mysqld
  sleep 3
  rm -f "$INIT_SQL"
  echo "[OK] MySQL password set qua init-file (bypass validate_password)"

  # VERIFY: connect được password mới chưa?
  if MYSQL_PWD="$NEW_ROOT_PASS" mysql -uroot -e "SELECT 1;" >/dev/null 2>&1; then
    umask 077
    cat > "$ROOT_CNF" <<CNFEOF
[client]
user=root
password=${NEW_ROOT_PASS}
CNFEOF
    chmod 600 "$ROOT_CNF"
    chown root:root "$ROOT_CNF"
    rm -f /root/.my.cnf
    ln -s "$ROOT_CNF" /root/.my.cnf
    echo "[OK] MySQL root password đã set & VERIFY thành công"
  else
    echo "[CRITICAL] Set xong nhưng KHÔNG connect được! Xem /var/log/mysqld.log"
    exit 1
  fi
else
  echo "[..] MySQL root password đã tồn tại — giữ nguyên"
fi

echo "[$(date)] === Install EPEL + Remi ==="
dnf install -y $DNF_OPTS epel-release
dnf install -y $DNF_OPTS https://rpms.remirepo.net/enterprise/remi-release-9.rpm || true

mkdir -p /run/php-fpm
chown "##@
        + user
        + r##":"##@
        + user
        + r##" /run/php-fpm 2>/dev/null || true

"##@
}

/// Renders the start of the stack script.
fn stack_head(mv: &str, repo: &str, user: &str) -> (r: String)
    ensures
        r@ == stack_head_text(mv@, repo@, user@),
{
    let mut s = String::new();
    push_str(&mut s, r##"#!/bin/bash
set -o pipefail
export DNF_OPTS="--setopt=logdir=/tmp --setopt=logfile=/tmp/dnf.log"

echo "[$(date)] === Install Nginx ==="
dnf install -y $DNF_OPTS nginx
systemctl enable nginx 2>/dev/null
systemctl start  nginx 2>/dev/null
mkdir -p /etc/nginx/conf.d /var/www
echo "Nginx: $(systemctl is-active nginx)"

echo "[$(date)] === Install MySQL "##);
    push_str(&mut s, mv);
    push_str(&mut s, r##" ==="
dnf install -y $DNF_OPTS "##);
    push_str(&mut s, repo);
    push_str(&mut s, r##" || true
dnf module disable mysql -y $DNF_OPTS 2>/dev/null || true
dnf install -y $DNF_OPTS mysql-community-server
systemctl enable mysqld 2>/dev/null
systemctl start  mysqld 2>/dev/null
sleep 3
TMPPASS=$(grep 'temporary password' /var/log/mysqld.log 2>/dev/null | tail -1 | awk '{print $NF}')
echo "MySQL: $(systemctl is-active mysqld)"
echo "Temp password length: ${#TMPPASS}"

# Set MySQL root password (idempotent + verify)
ROOT_CNF=/etc/nitpanel/mysql_root.cnf
if [ ! -f "$ROOT_CNF" ]; then
  # Password mới: chỉ alphanumeric (no special chars) → tránh mọi rắc rối với .cnf parsing
  NEW_ROOT_PASS=$(cat /dev/urandom | tr -dc 'A-Za-z0-9' | head -c 24)

  # GIẢI PHÁP TRIỆT ĐỂ: dùng init-file để bypass HOÀN TOÀN validate_password
  # MySQL chạy file SQL này lúc startup với SUPER privilege, KHÔNG bị policy chặn
  INIT_SQL=$(mktemp /tmp/mysql_init_XXXXXX.sql)
  chmod 644 "$INIT_SQL"  # mysql user phải đọc được
  cat > "$INIT_SQL" <<INITEOF
ALTER USER 'root'@'localhost' IDENTIFIED WITH caching_sha2_password BY '${NEW_ROOT_PASS}';
SET GLOBAL validate_password.policy = LOW;
SET GLOBAL validate_password.length = 4;
FLUSH PRIVILEGES;
INITEOF

  # Restart MySQL với --init-file → tự động chạy SQL trên với quyền SUPER
  systemctl stop mysqld
  sleep 2

  # Override systemd để pass --init-file
  mkdir -p /etc/systemd/system/mysqld.service.d
  cat > /etc/systemd/system/mysqld.service.d/init.conf <<SYSEOF
[Service]
ExecStart=
ExecStart=/usr/sbin/mysqld --init-file=$INIT_SQL --user=mysql
SYSEOF
  systemctl daemon-reload
  systemctl start mysqld
  sleep 4

  # Xóa override, restart bình thường
  rm -f /etc/systemd/system/mysqld.service.d/init.conf
  systemctl daemon-reload
  systemctl restart mysqld
  sleep 3
  rm -f "$INIT_SQL"
  echo "[OK] MySQL password set qua init-file (bypass validate_password)"

  # VERIFY: connect được password mới chưa?
  if MYSQL_PWD="$NEW_ROOT_PASS" mysql -uroot -e "SELECT 1;" >/dev/null 2>&1; then
    umask 077
    cat > "$ROOT_CNF" <<CNFEOF
[client]
user=root
password=${NEW_ROOT_PASS}
CNFEOF
    chmod 600 "$ROOT_CNF"
    chown root:root "$ROOT_CNF"
    rm -f /root/.my.cnf
    ln -s "$ROOT_CNF" /root/.my.cnf
    echo "[OK] MySQL root password đã set & VERIFY thành công"
  else
    echo "[CRITICAL] Set xong nhưng KHÔNG connect được! Xem /var/log/mysqld.log"
    exit 1
  fi
else
  echo "[..] MySQL root password đã tồn tại — giữ nguyên"
fi

echo "[$(date)] === Install EPEL + Remi ==="
dnf install -y $DNF_OPTS epel-release
dnf install -y $DNF_OPTS https://rpms.remirepo.net/enterprise/remi-release-9.rpm || true

mkdir -p /run/php-fpm
chown "##);
    push_str(&mut s, user);
    push_str(&mut s, r##":"##);
    push_str(&mut s, user);
    push_str(&mut s, r##" /run/php-fpm 2>/dev/null || true

"##);
    s
}
/// The part of the stack script that installs PHP `pv` and writes its pool file.
pub open spec fn stack_php_text(pv: Seq<char>, user: Seq<char>) -> Seq<char> {
    Seq::<char>::empty()
        + r##"echo "[$(date)] === Install PHP "##@
        + pv
        + r##" ==="
dnf install -y $DNF_OPTS php"##@
        + no_dots(pv)
        + r##"-php-fpm php"##@
        + no_dots(pv)
        + r##"-php-cli php"##@
        + no_dots(pv)
        + r##"-php-mysqlnd php"##@
        + no_dots(pv)
        + r##"-php-gd php"##@
        + no_dots(pv)
        + r##"-php-curl php"##@
        + no_dots(pv)
        + r##"-php-mbstring php"##@
        + no_dots(pv)
        + r##"-php-xml php"##@
        + no_dots(pv)
        + r##"-php-zip php"##@
        + no_dots(pv)
        + r##"-php-opcache php"##@
        + no_dots(pv)
        + r##"-php-bcmath php"##@
        + no_dots(pv)
        + r##"-php-intl php"##@
        + no_dots(pv)
        + r##"-php-redis
POOL_DIR=/etc/opt/remi/php"##@
        + no_dots(pv)
        + r##"/php-fpm.d
if [ ! -d "$POOL_DIR" ]; then
  POOL_DIR=$(dirname $(find /etc -name "www.conf" -path "*php"##@
        + no_dots(pv)
        + r##"*" 2>/dev/null | head -1))
fi
if [ -d "$POOL_DIR" ]; then
  cat > "$POOL_DIR/www.conf" <<'POOLEOF'
"##@
        + pool_conf_text(no_dots(pv), user)
        + r##"POOLEOF
  echo "[OK] Wrote pool config: $POOL_DIR/www.conf"
fi
systemctl daemon-reload
systemctl enable php"##@
        + no_dots(pv)
        + r##"-php-fpm 2>/dev/null
systemctl restart php"##@
        + no_dots(pv)
        + r##"-php-fpm 2>/dev/null
sleep 1
echo "PHP "##@
        + pv
        + r##": $(systemctl is-active php"##@
        + no_dots(pv)
        + r##"-php-fpm 2>/dev/null)"
ls -l /run/php-fpm/php"##@
        + no_dots(pv)
        + r##".sock 2>/dev/null || echo "  (socket pending)"
"##@
}

/// Renders the PHP part of the stack script.
fn stack_php(pv: &str, user: &str) -> (r: String)
    ensures
        r@ == stack_php_text(pv@, user@),
{
    let n = vn(pv);
    let pool = php_fpm_pool_conf(pv, user);
    let mut s = String::new();
    push_str(&mut s, r##"echo "[$(date)] === Install PHP "##);
    push_str(&mut s, pv);
    push_str(&mut s, r##" ==="
dnf install -y $DNF_OPTS php"##);
    push_str(&mut s, n.as_str());
    push_str(&mut s, r##"-php-fpm php"##);
    push_str(&mut s, n.as_str());
    push_str(&mut s, r##"-php-cli php"##);
    push_str(&mut s, n.as_str());
    push_str(&mut s, r##"-php-mysqlnd php"##);
    push_str(&mut s, n.as_str());
    push_str(&mut s, r##"-php-gd php"##);
    push_str(&mut s, n.as_str());
    push_str(&mut s, r##"-php-curl php"##);
    push_str(&mut s, n.as_str());
    push_str(&mut s, r##"-php-mbstring php"##);
    push_str(&mut s, n.as_str());
    push_str(&mut s, r##"-php-xml php"##);
    push_str(&mut s, n.as_str());
    push_str(&mut s, r##"-php-zip php"##);
    push_str(&mut s, n.as_str());
    push_str(&mut s, r##"-php-opcache php"##);
    push_str(&mut s, n.as_str());
    push_str(&mut s, r##"-php-bcmath php"##);
    push_str(&mut s, n.as_str());
    push_str(&mut s, r##"-php-intl php"##);
    push_str(&mut s, n.as_str());
    push_str(&mut s, r##"-php-redis
POOL_DIR=/etc/opt/remi/php"##);
    push_str(&mut s, n.as_str());
    push_str(&mut s, r##"/php-fpm.d
if [ ! -d "$POOL_DIR" ]; then
  POOL_DIR=$(dirname $(find /etc -name "www.conf" -path "*php"##);
    push_str(&mut s, n.as_str());
    push_str(&mut s, r##"*" 2>/dev/null | head -1))
fi
if [ -d "$POOL_DIR" ]; then
  cat > "$POOL_DIR/www.conf" <<'POOLEOF'
"##);
    push_str(&mut s, pool.as_str());
    push_str(&mut s, r##"POOLEOF
  echo "[OK] Wrote pool config: $POOL_DIR/www.conf"
fi
systemctl daemon-reload
systemctl enable php"##);
    push_str(&mut s, n.as_str());
    push_str(&mut s, r##"-php-fpm 2>/dev/null
systemctl restart php"##);
    push_str(&mut s, n.as_str());
    push_str(&mut s, r##"-php-fpm 2>/dev/null
sleep 1
echo "PHP "##);
    push_str(&mut s, pv);
    push_str(&mut s, r##": $(systemctl is-active php"##);
    push_str(&mut s, n.as_str());
    push_str(&mut s, r##"-php-fpm 2>/dev/null)"
ls -l /run/php-fpm/php"##);
    push_str(&mut s, n.as_str());
    push_str(&mut s, r##".sock 2>/dev/null || echo "  (socket pending)"
"##);
    s
}
/// The end of the stack script: redis, certbot, phpMyAdmin, fail2ban and a status report.
pub open spec fn stack_tail_text() -> Seq<char> {
    r##"
echo "[$(date)] === Install Redis (secure) ==="
dnf install -y $DNF_OPTS epel-release || true
dnf install -y $DNF_OPTS redis || true
REDIS_PASS=$(tr -dc 'A-Za-z0-9' </dev/urandom | head -c 32)
cp /etc/redis/redis.conf /etc/redis/redis.conf.bak 2>/dev/null || true
sed -i 's/^bind .*/bind 127.0.0.1/' /etc/redis/redis.conf
sed -i 's/^protected-mode .*/protected-mode yes/' /etc/redis/redis.conf
if grep -q "^requirepass" /etc/redis/redis.conf; then
  sed -i "s/^requirepass .*/requirepass $REDIS_PASS/" /etc/redis/redis.conf
else
  echo "requirepass $REDIS_PASS" >> /etc/redis/redis.conf
fi
cat >> /etc/redis/redis.conf <<'CFGEOF'
rename-command FLUSHDB ""
rename-command FLUSHALL ""
rename-command DEBUG ""
rename-command CONFIG ""
rename-command SHUTDOWN ""
rename-command KEYS ""
CFGEOF
mkdir -p /etc/nitpanel
cat > /etc/nitpanel/redis.conf <<EOF
host: 127.0.0.1
port: 6379
password: $REDIS_PASS
EOF
chmod 600 /etc/nitpanel/redis.conf
systemctl enable redis 2>/dev/null
systemctl restart redis 2>/dev/null
sleep 1
echo "Redis: $(systemctl is-active redis)"

echo "[$(date)] === Install Certbot ==="
dnf install -y $DNF_OPTS certbot python3-certbot-nginx

echo "[$(date)] === Install phpMyAdmin ==="
dnf install -y $DNF_OPTS phpMyAdmin || dnf install -y $DNF_OPTS phpmyadmin || echo "phpMyAdmin install skipped"

echo "[$(date)] === Install Fail2ban ==="
dnf install -y $DNF_OPTS fail2ban fail2ban-systemd
systemctl enable fail2ban 2>/dev/null
systemctl start  fail2ban 2>/dev/null
echo "Fail2ban: $(systemctl is-active fail2ban)"

echo "[$(date)] === Final Status ==="
echo "Nginx:    $(systemctl is-active nginx)"
echo "MySQL:    $(systemctl is-active mysqld)"
echo "Fail2ban: $(systemctl is-active fail2ban)"
for svc in $(systemctl list-unit-files 2>/dev/null | awk '/php.*fpm/ {print $1}'); do
    systemctl enable  $svc 2>/dev/null
    systemctl restart $svc 2>/dev/null
    echo "  $svc: $(systemctl is-active $svc 2>/dev/null)"
done
echo "PHP sockets:"
ls -l /run/php-fpm/ 2>/dev/null || echo "  none"
echo "[$(date)] === DONE ==="
"##@
}

fn stack_tail() -> (r: &'static str)
    ensures
        r@ == stack_tail_text(),
{
    r##"
echo "[$(date)] === Install Redis (secure) ==="
dnf install -y $DNF_OPTS epel-release || true
dnf install -y $DNF_OPTS redis || true
REDIS_PASS=$(tr -dc 'A-Za-z0-9' </dev/urandom | head -c 32)
cp /etc/redis/redis.conf /etc/redis/redis.conf.bak 2>/dev/null || true
sed -i 's/^bind .*/bind 127.0.0.1/' /etc/redis/redis.conf
sed -i 's/^protected-mode .*/protected-mode yes/' /etc/redis/redis.conf
if grep -q "^requirepass" /etc/redis/redis.conf; then
  sed -i "s/^requirepass .*/requirepass $REDIS_PASS/" /etc/redis/redis.conf
else
  echo "requirepass $REDIS_PASS" >> /etc/redis/redis.conf
fi
cat >> /etc/redis/redis.conf <<'CFGEOF'
rename-command FLUSHDB ""
rename-command FLUSHALL ""
rename-command DEBUG ""
rename-command CONFIG ""
rename-command SHUTDOWN ""
rename-command KEYS ""
CFGEOF
mkdir -p /etc/nitpanel
cat > /etc/nitpanel/redis.conf <<EOF
host: 127.0.0.1
port: 6379
password: $REDIS_PASS
EOF
chmod 600 /etc/nitpanel/redis.conf
systemctl enable redis 2>/dev/null
systemctl restart redis 2>/dev/null
sleep 1
echo "Redis: $(systemctl is-active redis)"

echo "[$(date)] === Install Certbot ==="
dnf install -y $DNF_OPTS certbot python3-certbot-nginx

echo "[$(date)] === Install phpMyAdmin ==="
dnf install -y $DNF_OPTS phpMyAdmin || dnf install -y $DNF_OPTS phpmyadmin || echo "phpMyAdmin install skipped"

echo "[$(date)] === Install Fail2ban ==="
dnf install -y $DNF_OPTS fail2ban fail2ban-systemd
systemctl enable fail2ban 2>/dev/null
systemctl start  fail2ban 2>/dev/null
echo "Fail2ban: $(systemctl is-active fail2ban)"

echo "[$(date)] === Final Status ==="
echo "Nginx:    $(systemctl is-active nginx)"
echo "MySQL:    $(systemctl is-active mysqld)"
echo "Fail2ban: $(systemctl is-active fail2ban)"
for svc in $(systemctl list-unit-files 2>/dev/null | awk '/php.*fpm/ {print $1}'); do
    systemctl enable  $svc 2>/dev/null
    systemctl restart $svc 2>/dev/null
    echo "  $svc: $(systemctl is-active $svc 2>/dev/null)"
done
echo "PHP sockets:"
ls -l /run/php-fpm/ 2>/dev/null || echo "  none"
echo "[$(date)] === DONE ==="
"##
}


/// The repository package of MySQL `mv`: 8.4's for "8.4", else 9.0's.
pub open spec fn mysql_repo_text(mv: Seq<char>) -> Seq<char> {
    if mv == "8.4"@ {
        "https://dev.mysql.com/get/mysql84-community-release-el9-1.noarch.rpm"@
    } else {
        "https://dev.mysql.com/get/mysql90-community-release-el9-1.noarch.rpm"@
    }
}

/// The PHP parts of the stack script, one per version, in order.
pub open spec fn stack_php_parts(pvs: Seq<Seq<char>>, user: Seq<char>) -> Seq<char>
    decreases pvs.len(),
{
    if pvs.len() == 0 {
        Seq::empty()
    } else {
        stack_php_parts(pvs.drop_last(), user) + stack_php_text(pvs.last(), user)
    }
}

/// The whole stack script.
pub open spec fn stack_script_text(mv: Seq<char>, pvs: Seq<Seq<char>>, user: Seq<char>) -> Seq<char> {
    stack_head_text(mv, mysql_repo_text(mv), user) + stack_php_parts(pvs, user) + stack_tail_text()
}

/// Renders the stack script for MySQL `mv` and PHP versions `pvs`.
pub fn stack_script(mv: &str, pvs: &Vec<String>, user: &str) -> (r: String)
    ensures
        r@ == stack_script_text(mv@, views(pvs@), user@),
{
    let repo = if str_eq(mv, "8.4") {
        "https://dev.mysql.com/get/mysql84-community-release-el9-1.noarch.rpm"
    } else {
        "https://dev.mysql.com/get/mysql90-community-release-el9-1.noarch.rpm"
    };
    let mut s = stack_head(mv, repo, user);
    let ghost h = s@;
    let mut i: usize = 0;
    while i < pvs.len()
        invariant
            i <= pvs.len(),
            s@ == h + stack_php_parts(views(pvs@).take(i as int), user@),
        decreases pvs.len() - i,
    {
        let part = stack_php(pvs[i].as_str(), user);
        push_str(&mut s, part.as_str());
        assert(views(pvs@).take(i + 1).drop_last() =~= views(pvs@).take(i as int));
        assert(views(pvs@).take(i + 1).last() == pvs@[i as int]@);
        assert(s@ =~= h + stack_php_parts(views(pvs@).take(i + 1), user@));
        i += 1;
    }
    assert(views(pvs@).take(pvs.len() as int) =~= views(pvs@));
    push_str(&mut s, stack_tail());
    assert(s@ =~= stack_script_text(mv@, views(pvs@), user@));
    s
}

/// The versions of `given` that the panel supports, in order.
pub open spec fn supported_php(given: Seq<Seq<char>>) -> Seq<Seq<char>>
    decreases given.len(),
{
    if given.len() == 0 {
        Seq::empty()
    } else if php_versions().contains(given.last()) {
        supported_php(given.drop_last()).push(given.last())
    } else {
        supported_php(given.drop_last())
    }
}

/// What a stack request asks for: MySQL `mysql` (9.0 when not given) must
/// be supported; the PHP versions are those of the list given that are
/// supported, or 8.4 alone when no list was given.
pub fn stack_request(mysql: Option<&str>, php: Option<&Vec<String>>) -> (r: Option<(String, Vec<String>)>)
    ensures
        ({
            let mv = match mysql {
                Some(m) => m@,
                None => "9.0"@,
            };
            &&& (r is None <==> !mysql_versions().contains(mv))
            &&& r matches Some(p) ==> {
                &&& p.0@ == mv
                &&& views(p.1@) == match php {
                    Some(l) => supported_php(views(l@)),
                    None => seq!["8.4"@],
                }
            }
        }),
{
    let mv = match mysql {
        Some(m) => owned(m),
        None => owned("9.0"),
    };
    if !mysql_version_supported(mv.as_str()) {
        return None;
    }
    let mut out: Vec<String> = Vec::new();
    match php {
        Some(l) => {
            let mut i: usize = 0;
            while i < l.len()
                invariant
                    i <= l.len(),
                    views(out@) == supported_php(views(l@).take(i as int)),
                decreases l.len() - i,
            {
                assert(views(l@).take(i + 1).drop_last() =~= views(l@).take(i as int));
                assert(views(l@).take(i + 1).last() == l@[i as int]@);
                if php_version_supported(l[i].as_str()) {
                    let ghost before = out@;
                    out.push(owned(l[i].as_str()));
                    assert(views(out@) =~= views(before).push(l@[i as int]@));
                }
                i += 1;
            }
            assert(views(l@).take(l.len() as int) =~= views(l@));
        },
        None => {
            out.push(owned("8.4"));
            assert(views(out@) =~= seq!["8.4"@]);
        },
    }
    Some((mv, out))
}

} // verus!
