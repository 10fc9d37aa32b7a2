use cloudflare_auth::apps::{
    app_icon_fallback, create_app_request, new_app, new_secret, require_active, revoke_needed,
    stored_key, update_app_fields, AppDraft, ImageReply,
};
use cloudflare_auth::db::AppRow;
use cloudflare_auth::http::{FieldValue, JsonBody};
use cloudflare_auth::password::verify_password;
use cloudflare_auth::validate::parse_redirect_uris;

fn body(fields: Vec<(&str, FieldValue)>) -> JsonBody {
    JsonBody { fields: fields.into_iter().map(|(k, v)| (k.to_string(), v)).collect() }
}

fn text(v: &str) -> FieldValue {
    FieldValue::Str(v.to_string())
}

fn app(status: &str, icon: Option<&str>) -> AppRow {
    AppRow {
        id: "rec1".into(),
        app_id: "app_1".into(),
        app_secret_hash: "h".into(),
        name: "Demo".into(),
        description: "old".into(),
        owner_id: "u1".into(),
        status: status.into(),
        redirect_uris: r#"["https://a/cb"]"#.into(),
        icon_url: icon.map(String::from),
        icon_object_key: None,
        created_at: "c".into(),
        updated_at: "u".into(),
        secret_rotated_at: None,
    }
}

#[test]
fn creating_reads_the_body() {
    let b = body(vec![
        ("name", text("  Acme ")),
        ("description", text("Prod")),
        ("redirectUris", FieldValue::List(vec![Some("https://a/cb".into()), None])),
        ("icon_url", text("https://cdn/i.png")),
    ]);
    let d = create_app_request(&b, 64, 256).unwrap();
    assert_eq!((d.name.as_str(), d.description.as_str()), ("Acme", "Prod"));
    assert_eq!(d.redirect_uris, vec!["https://a/cb".to_string()]);
    assert_eq!(d.icon_url.as_deref(), Some("https://cdn/i.png"));
}

#[test]
fn icon_field_prefers_icon_url_key() {
    let b = body(vec![("name", text("A")), ("iconUrl", FieldValue::Null), ("icon_url", text("https://x/i"))]);
    assert_eq!(create_app_request(&b, 64, 256).unwrap().icon_url, None);
}

#[test]
fn creating_checks_lengths() {
    let e = create_app_request(&body(vec![]), 64, 256).unwrap_err();
    assert_eq!((e.status, e.code, e.message.as_str()), (400, "invalid_name", "Name is required (max 64 chars)"));
    let e = create_app_request(&body(vec![("name", text("abcdef"))]), 5, 256).unwrap_err();
    assert_eq!(e.message, "Name is required (max 5 chars)");
    let e = create_app_request(&body(vec![("name", text("a")), ("description", text("toolong"))]), 5, 3).unwrap_err();
    assert_eq!((e.code, e.message.as_str()), ("invalid_description", "Description max 3 chars"));
}

#[test]
fn new_applications() {
    let d = AppDraft { name: "A".into(), description: "".into(), redirect_uris: vec![" https://a/cb ".into(), "https://a/cb".into()], icon_url: None };
    let a = new_app(&d, 1000);
    assert_eq!(a.id.len(), 32);
    assert!(a.app_id.starts_with("app_") && a.app_id.len() == 28);
    assert!(a.secret.starts_with("sec_") && a.secret.len() == 52);
    assert!(verify_password(&a.secret, &a.secret_hash));
    assert_eq!(a.redirect_uris, r#"["https://a/cb"]"#);
    assert_eq!(parse_redirect_uris(Some(&a.redirect_uris)), vec!["https://a/cb".to_string()]);
    let (s, h) = new_secret(1000);
    assert!(verify_password(&s, &h));
    assert!(!verify_password(&a.secret, &h));
}

#[test]
fn updating_fields() {
    let a = app("active", Some("https://old/i.png"));
    let u = update_app_fields(&a, &body(vec![]), 64).unwrap();
    assert_eq!((u.name.as_str(), u.description.as_str(), u.redirect_uris.as_str()), ("Demo", "old", r#"["https://a/cb"]"#));
    assert_eq!(u.icon_url.as_deref(), Some("https://old/i.png"));
    let u = update_app_fields(
        &a,
        &body(vec![
            ("name", text(" New ")),
            ("description", text(" d ")),
            ("redirectUris", FieldValue::List(vec![Some("https://b/cb".into())])),
            ("iconUrl", FieldValue::Null),
        ]),
        64,
    )
    .unwrap();
    assert_eq!((u.name.as_str(), u.description.as_str(), u.redirect_uris.as_str()), ("New", "d", r#"["https://b/cb"]"#));
    assert_eq!(u.icon_url, None);
    let u = update_app_fields(&a, &body(vec![("iconUrl", text("ftp://x"))]), 64).unwrap();
    assert_eq!(u.icon_url, None);
    let u = update_app_fields(&a, &body(vec![("iconUrl", FieldValue::Other)]), 64).unwrap();
    assert_eq!(u.icon_url.as_deref(), Some("https://old/i.png"));
    let e = update_app_fields(&a, &body(vec![("name", text("  "))]), 64).unwrap_err();
    assert_eq!(e.code, "invalid_name");
}

#[test]
fn status_checks() {
    assert!(require_active(&app("active", None)).is_ok());
    let e = require_active(&app("revoked", None)).unwrap_err();
    assert_eq!((e.status, e.code, e.message.as_str()), (400, "app_revoked", "App is revoked"));
    assert!(revoke_needed(&app("active", None)));
    assert!(!revoke_needed(&app("revoked", None)));
}

#[test]
fn stored_keys() {
    assert_eq!(stored_key(&Some("apps/x.jpg".into())).as_deref(), Some("apps/x.jpg"));
    assert_eq!(stored_key(&Some(String::new())), None);
    assert_eq!(stored_key(&None), None);
}

#[test]
fn icon_fallbacks() {
    match app_icon_fallback(&app("active", Some(" https://cdn.example/i.png "))).unwrap() {
        ImageReply::Redirect(u) => assert_eq!(u, "https://cdn.example/i.png"),
        other => panic!("{other:?}"),
    }
    match app_icon_fallback(&app("active", None)).unwrap() {
        ImageReply::Identicon { seed, size, max_age } => assert_eq!((seed.as_str(), size, max_age), ("app_1", 128, 3600)),
        other => panic!("{other:?}"),
    }
    let e = app_icon_fallback(&app("active", Some("http://"))).unwrap_err();
    assert_eq!((e.status, e.code, e.message.as_str()), (400, "invalid_icon", "Bad icon URL"));
}
