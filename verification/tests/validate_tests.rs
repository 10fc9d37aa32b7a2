use cloudflare_auth::db::AppRow;
use cloudflare_auth::password::hash_password_with_salt;
use cloudflare_auth::validate::{
    check_app_credentials, credentials_to_check, email_valid, ensure_app_credentials_if_required,
    normalize_icon_url, parse_redirect_uris, require_app_credentials, serialize_redirect_uris,
    username_valid,
};

fn app(status: &str, secret_hash: &str) -> AppRow {
    AppRow {
        id: "rec1".into(),
        app_id: "app_1".into(),
        app_secret_hash: secret_hash.into(),
        name: "Demo".into(),
        description: "".into(),
        owner_id: "u1".into(),
        status: status.into(),
        redirect_uris: "[]".into(),
        icon_url: None,
        icon_object_key: None,
        created_at: "2024-01-01 00:00:00".into(),
        updated_at: "2024-01-01 00:00:00".into(),
        secret_rotated_at: None,
    }
}

#[test]
fn emails() {
    assert!(email_valid("alice@example.com"));
    assert!(!email_valid("alice@example"));
    assert!(!email_valid("@example.com"));
    assert!(!email_valid("a@b@c.com"));
    assert!(!email_valid("ali ce@example.com"));
    assert!(!email_valid("alice@exa\u{3000}mple.com"));
    assert!(!email_valid(""));
}

#[test]
fn usernames() {
    assert!(username_valid("alice_01", 3, 32));
    assert!(!username_valid("al", 3, 32));
    assert!(!username_valid("alice-01", 3, 32));
    assert!(!username_valid("ålice", 3, 32));
    assert!(username_valid("abc", 3, 3));
    assert!(!username_valid("abcd", 3, 3));
}

#[test]
fn icon_urls() {
    assert_eq!(
        normalize_icon_url(Some("  https://cdn.example.com/i.png ")),
        Some("https://cdn.example.com/i.png".to_string())
    );
    assert_eq!(normalize_icon_url(Some("HTTP://X.Y/z")), Some("HTTP://X.Y/z".to_string()));
    assert_eq!(normalize_icon_url(Some("ftp://x.y/z")), None);
    assert_eq!(normalize_icon_url(Some("   ")), None);
    assert_eq!(normalize_icon_url(None), None);
    let long = format!("https://x.y/{}", "a".repeat(600));
    assert_eq!(normalize_icon_url(Some(&long)), None);
}

#[test]
fn icon_url_normalization_is_idempotent() {
    for raw in [" https://a.b/c ", "http://x", "javascript:alert(1)", ""] {
        let once = normalize_icon_url(Some(raw));
        let twice = once.as_deref().and_then(|u| normalize_icon_url(Some(u)));
        assert_eq!(once, twice);
    }
}

#[test]
fn redirect_uri_lists() {
    assert_eq!(
        parse_redirect_uris(Some(r#"[" https://a/cb ", "", "https://b/cb"]"#)),
        vec!["https://a/cb".to_string(), "https://b/cb".to_string()]
    );
    assert_eq!(parse_redirect_uris(Some("not json")), Vec::<String>::new());
    assert_eq!(parse_redirect_uris(Some(r#"[1, 2]"#)), Vec::<String>::new());
    assert_eq!(parse_redirect_uris(None), Vec::<String>::new());
    let many: Vec<String> = (0..30).map(|i| format!("\"https://x/{i}\"")).collect();
    let text = format!("[{}]", many.join(","));
    assert_eq!(parse_redirect_uris(Some(&text)).len(), 20);
}

#[test]
fn redirect_uri_serialization() {
    let list = vec![
        " https://a/cb ".to_string(),
        "https://a/cb".to_string(),
        "".to_string(),
        "https://b/\"q\"".to_string(),
        format!("https://x/{}", "y".repeat(2100)),
    ];
    let text = serialize_redirect_uris(&list);
    assert_eq!(text, r#"["https://a/cb","https://b/\"q\""]"#);
    assert_eq!(
        parse_redirect_uris(Some(&text)),
        vec!["https://a/cb".to_string(), "https://b/\"q\"".to_string()]
    );
    assert_eq!(serialize_redirect_uris(&[]), "[]");
    let many: Vec<String> = (0..25).map(|i| format!("https://x/{i}")).collect();
    assert_eq!(parse_redirect_uris(Some(&serialize_redirect_uris(&many))).len(), 20);
}

#[test]
fn credential_headers() {
    assert_eq!(credentials_to_check(None, None).unwrap(), None);
    assert_eq!(
        credentials_to_check(Some("app_1"), Some("sec")).unwrap(),
        Some("app_1".to_string())
    );
    for (id, secret) in [(Some("app_1"), None), (None, Some("sec")), (Some(""), Some("sec")), (Some("app_1"), Some(""))] {
        let e = credentials_to_check(id, secret).unwrap_err();
        assert_eq!((e.status, e.code, e.message.as_str()), (401, "invalid_app_credentials", "Invalid app credentials"));
    }
}

#[test]
fn credential_check() {
    let hash = hash_password_with_salt("sec_good", 1, "00112233");
    let ok = check_app_credentials(Some(app("active", &hash)), "sec_good").unwrap();
    assert_eq!(ok.app_id, "app_1");
    for (found, secret) in [
        (Some(app("active", &hash)), "sec_bad"),
        (Some(app("revoked", &hash)), "sec_good"),
        (None, "sec_good"),
    ] {
        let e = check_app_credentials(found, secret).unwrap_err();
        assert_eq!((e.status, e.code, e.message.as_str()), (401, "invalid_app_credentials", "Invalid app credentials"));
    }
}

#[test]
fn required_credentials() {
    let e = require_app_credentials(None).unwrap_err();
    assert_eq!((e.status, e.message.as_str()), (401, "X-App-Id and X-App-Secret are required"));
    assert_eq!(require_app_credentials(Some(app("active", "h"))).unwrap().app_id, "app_1");
    assert!(ensure_app_credentials_if_required(true, None).is_err());
    assert!(ensure_app_credentials_if_required(false, None).unwrap().is_none());
    assert!(ensure_app_credentials_if_required(true, Some(app("active", "h"))).unwrap().is_some());
}
