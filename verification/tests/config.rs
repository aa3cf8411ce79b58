use actual_mcp::config::{
    Config, Secret, ACTUAL_CACHE_DIR, ACTUAL_PASSWORD, ACTUAL_SERVER_URL, ACTUAL_SYNC_ID,
    ACTUAL_TTL_SECONDS, HOME, XDG_CACHE_HOME,
};
use actual_mcp::error::ConfigError;
use actual_mcp::store::freshness::Span;

use std::cell::RefCell;
use std::collections::HashMap;

fn vars(pairs: &[(&str, &str)]) -> impl Fn(&str) -> Option<String> {
    let map: HashMap<String, String> = pairs
        .iter()
        .map(|(k, v)| (k.to_string(), v.to_string()))
        .collect();
    move |k| map.get(k).cloned()
}

#[test]
fn blank_password_is_missing() {
    let err = Config::from_vars(vars(&[
        (ACTUAL_SERVER_URL, "http://localhost:11111"),
        (ACTUAL_PASSWORD, "     "),
        (HOME, "/some/path/home"),
    ]))
    .err().unwrap();
    assert!(matches!(err, ConfigError::Missing(ACTUAL_PASSWORD)));
}

#[test]
fn trailing_slash_is_stripped() {
    let conf = Config::from_vars(vars(&[
        (ACTUAL_SERVER_URL, "http://localhost:11111/////"),
        (ACTUAL_PASSWORD, "insecurepwd123"),
        (HOME, "/some/path/home"),
    ]))
    .ok().unwrap();
    assert_eq!("http://localhost:11111", conf.server_url);
}

#[test]
fn cache_dir_prefers_explicit_over_xdg() {
    let conf = Config::from_vars(vars(&[
        (ACTUAL_SERVER_URL, "http://localhost:11111/////"),
        (ACTUAL_PASSWORD, "insecurepwd123"),
        (ACTUAL_CACHE_DIR, "/cache"),
        (XDG_CACHE_HOME, "/xdgcache"),
        (HOME, "/some/path/home"),
    ]))
    .ok().unwrap();
    assert_eq!(vec!["/cache"], conf.cache_dir.parts);
}

fn base(more: &[(&str, &str)]) -> Result<Config, ConfigError> {
    let mut pairs = vec![
        (ACTUAL_SERVER_URL, " http://localhost:5006/ "),
        (ACTUAL_PASSWORD, " secret "),
        (HOME, "/home/u"),
    ];
    pairs.extend_from_slice(more);
    Config::from_vars(vars(&pairs))
}

fn message(r: Result<Config, ConfigError>) -> String {
    r.err().unwrap().message()
}

#[test]
fn only_the_address_is_trimmed() {
    let conf = base(&[(ACTUAL_SYNC_ID, " g-1 ")]).ok().unwrap();
    assert_eq!(conf.server_url, "http://localhost:5006");
    assert_eq!(conf.password.expose(), " secret ");
    assert_eq!(conf.sync_id.as_deref(), Some(" g-1 "));
}

#[test]
fn a_blank_sync_id_is_none() {
    assert_eq!(base(&[(ACTUAL_SYNC_ID, "  ")]).ok().unwrap().sync_id, None);
    assert_eq!(base(&[]).ok().unwrap().sync_id, None);
}

#[test]
fn cache_dirs_are_found_in_turn() {
    let xdg = base(&[(XDG_CACHE_HOME, "/xdg")]).ok().unwrap();
    assert_eq!(xdg.cache_dir.parts, ["/xdg", "actual-mcp"]);
    let home = base(&[]).ok().unwrap();
    assert_eq!(home.cache_dir.parts, ["/home/u", ".cache", "actual-mcp"]);
    let none = Config::from_vars(vars(&[
        (ACTUAL_SERVER_URL, "http://h"),
        (ACTUAL_PASSWORD, "p"),
    ]));
    assert_eq!(
        message(none),
        "could not determine a cache directory; set ACTUAL_CACHE_DIR"
    );
}

#[test]
fn the_ttl_is_a_number_of_seconds() {
    assert_eq!(base(&[]).ok().unwrap().ttl, Span::from_secs(60));
    assert_eq!(base(&[(ACTUAL_TTL_SECONDS, " 5 ")]).ok().unwrap().ttl, Span::from_secs(5));
    assert_eq!(base(&[(ACTUAL_TTL_SECONDS, "+5")]).ok().unwrap().ttl, Span::from_secs(5));
    assert_eq!(
        message(base(&[(ACTUAL_TTL_SECONDS, "soon")])),
        "ACTUAL_TTL_SECONDS is invalid: invalid digit found in string"
    );
    assert_eq!(
        message(base(&[(ACTUAL_TTL_SECONDS, "")])),
        "ACTUAL_TTL_SECONDS is invalid: cannot parse integer from empty string"
    );
    assert_eq!(
        message(base(&[(ACTUAL_TTL_SECONDS, "18446744073709551616")])),
        "ACTUAL_TTL_SECONDS is invalid: number too large to fit in target type"
    );
}

#[test]
fn missing_variables_are_named() {
    assert_eq!(message(Config::from_vars(|_| None)), "ACTUAL_SERVER_URL is not set");
    assert_eq!(
        message(Config::from_vars(vars(&[(ACTUAL_SERVER_URL, "http://h")]))),
        "ACTUAL_PASSWORD is not set"
    );
}

#[test]
fn a_secret_is_redacted() {
    let secret = Secret::new("hunter2".to_string());
    assert_eq!(secret.redacted(), "Secret(***)");
    assert_eq!(secret.clone().expose(), "hunter2");
}

#[test]
fn every_variable_is_asked_for_once_and_in_turn() {
    let asked = RefCell::new(Vec::new());
    let conf = Config::from_vars(|name: &str| {
        asked.borrow_mut().push(name.to_string());
        Some(asked.borrow().len().to_string())
    })
    .ok()
    .unwrap();
    assert_eq!(conf.server_url, "1");
    assert_eq!(conf.password.expose(), "2");
    assert_eq!(conf.sync_id.as_deref(), Some("3"));
    assert_eq!(conf.cache_dir.parts, ["4"]);
    assert_eq!(conf.ttl, Span::from_secs(5));
    assert_eq!(
        asked.into_inner(),
        [
            ACTUAL_SERVER_URL,
            ACTUAL_PASSWORD,
            ACTUAL_SYNC_ID,
            ACTUAL_CACHE_DIR,
            ACTUAL_TTL_SECONDS
        ]
    );
}
