//! Verified core of a web-server management panel: input validation and
//! sanitising, configuration files and shell commands, request guards, the
//! login lock-out, the site list, the file manager's rules and the small
//! parsers the panel reads its notes and command output with.

pub mod text;
pub mod validate;
pub mod sanitize;
pub mod config;
pub mod store;
pub mod guard;
pub mod auth;
pub mod parse;
pub mod request;
pub mod files;
pub mod listing;
pub mod sites;
pub mod admin;
pub mod scripts;
pub mod commands;
