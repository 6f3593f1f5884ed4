# nitpanel

A web panel for AlmaLinux / Rocky Linux / RHEL 9 servers: nginx sites with
PHP-FPM 7.4–8.4, MySQL 8.4/9.0 databases, Let's Encrypt certificates,
fail2ban, phpMyAdmin, a file manager and service control.

The decisions the panel makes are a library verified with Verus; the HTTP
server around it is ordinary Rust.

## Layout

- `src/` — the verified library.
  - `text`: character classes, string building and the specifications of
    trimming, splitting and searching.
  - `validate`, `sanitize`: what is accepted as a domain, path, IP entry,
    identifier, password or e-mail; shell quoting (proved to read back as
    the quoted text), identifier and file-name cleaning.
  - `config`: nginx server blocks, PHP-FPM pools, fail2ban jails and
    filters, the MySQL client command.
  - `store`, `guard`, `auth`: a string-keyed table with distinct keys;
    per-address rate limits, CSRF tokens, one-time nonces; password hashes,
    the login lock-out and password changes.
  - `sites`: the site list (domains stay distinct), database plans, SQL,
    credential notes (proved to read back), certbot commands.
  - `admin`: fail2ban settings and whitelist, service control, licence
    keys, the shared phpMyAdmin login, session tokens.
  - `files`, `listing`: the file manager's paths, archives and listings
    (sorted, directories first).
  - `parse`, `request`: reading notes and command output; client address,
    allow-lists, bearer tokens, the audit log.
  - `scripts`, `commands`: install scripts and shell commands.
- `tests/` — tests of the library on concrete values.
- `app/` — the actix-web server: requests, files, processes and the state
  file.

The server serves `index.html` and `one-line-install.sh` from the directory
named by `NITPANEL_ASSETS` (default `/usr/share/nitpanel`).
