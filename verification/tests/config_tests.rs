use cloudflare_auth::config::{
    allow_registration, app_desc_max, app_name, app_name_max, jwt_secret, parse_bool, parse_int,
    password_min, pbkdf2_iterations, public_config, require_app_credentials, service_url,
    token_ttl, username_bounds, ConfigVars,
};

fn empty() -> ConfigVars {
    ConfigVars {
        app_name: None,
        service_url: None,
        token_ttl_seconds: None,
        password_min_length: None,
        username_min: None,
        username_max: None,
        app_name_max: None,
        app_desc_max: None,
        pbkdf2_iterations: None,
        allow_registration: None,
        require_app_credentials: None,
        jwt_secret: None,
    }
}

fn s(v: &str) -> Option<String> {
    Some(v.to_string())
}

#[test]
fn defaults() {
    let v = empty();
    assert_eq!(app_name(&v), "cloudflare-auth");
    assert_eq!(service_url(&v), "https://auth.dayti.de");
    assert_eq!(token_ttl(&v), 86400);
    assert_eq!(password_min(&v), 8);
    assert_eq!(username_bounds(&v), (3, 32));
    assert_eq!(app_name_max(&v), 64);
    assert_eq!(app_desc_max(&v), 256);
    assert_eq!(pbkdf2_iterations(&v), 100_000);
    assert!(allow_registration(&v));
    assert!(!require_app_credentials(&v));
    assert_eq!(jwt_secret(&v), "local-dev-secret-change-me-please-32bytes+");
}

#[test]
fn values_are_trimmed_and_clamped() {
    let mut v = empty();
    v.app_name = s("  My Auth ");
    v.service_url = s(" https://example.com/// ");
    v.token_ttl_seconds = s("0");
    v.password_min_length = s("500");
    v.username_min = s("10");
    v.username_max = s("5");
    v.pbkdf2_iterations = s("1000");
    v.app_desc_max = s("-4");
    assert_eq!(app_name(&v), "My Auth");
    assert_eq!(service_url(&v), "https://example.com");
    assert_eq!(token_ttl(&v), 1);
    assert_eq!(password_min(&v), 128);
    assert_eq!(username_bounds(&v), (10, 10));
    assert_eq!(pbkdf2_iterations(&v), 100_000);
    assert_eq!(app_desc_max(&v), 0);
}

#[test]
fn blank_text_settings_fall_back() {
    let mut v = empty();
    v.app_name = s("   ");
    v.service_url = s("///");
    assert_eq!(app_name(&v), "cloudflare-auth");
    assert_eq!(service_url(&v), "https://auth.dayti.de");
}

#[test]
fn booleans() {
    assert!(parse_bool(s(" YES "), false));
    assert!(parse_bool(s("on"), false));
    assert!(!parse_bool(s("0"), true));
    assert!(!parse_bool(s("Off"), true));
    assert!(parse_bool(s("maybe"), true));
    assert!(!parse_bool(None, false));
}

#[test]
fn integers() {
    assert_eq!(parse_int(s(" 42 "), 7, 0, 100), 42);
    assert_eq!(parse_int(s("+5"), 7, 0, 100), 5);
    assert_eq!(parse_int(s("abc"), 7, 0, 100), 7);
    assert_eq!(parse_int(s("-9"), 7, 0, 100), 0);
    assert_eq!(parse_int(None, 700, 0, 100), 100);
}

#[test]
fn public_snapshot() {
    let mut v = empty();
    v.allow_registration = s("false");
    v.require_app_credentials = s("true");
    v.jwt_secret = s("top-secret");
    let c = public_config(&v);
    assert!(!c.allow_registration);
    assert!(c.require_app_credentials);
    assert_eq!(c.token_ttl_seconds, 86400);
    assert_eq!(c.username_min, 3);
    assert_eq!(c.username_max, 32);
    assert_eq!(jwt_secret(&v), "top-secret");
}
