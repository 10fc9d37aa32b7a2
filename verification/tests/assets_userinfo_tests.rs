use cloudflare_auth::assets::{brand_page, contains_str, replace_str, rewrites_page};
use cloudflare_auth::db::{AppRow, UserRow};
use cloudflare_auth::userinfo::{profile_user_id, userinfo_app_check, userinfo_payload};

#[test]
fn branding() {
    let html = "<title>{{APP_NAME}}</title><a href=\"https://cloudflare-auth.veegn.workers.dev/x\">{{SERVICE_URL}}</a>{{APP_NAME}}";
    assert_eq!(
        brand_page(html, "Auth", "https://auth.example"),
        "<title>Auth</title><a href=\"https://auth.example/x\">https://auth.example</a>Auth"
    );
}

#[test]
fn replacing_text() {
    assert_eq!(replace_str("aaa", "aa", "b"), "ba");
    assert_eq!(replace_str("abc", "x", "y"), "abc");
    assert_eq!(replace_str("", "x", "y"), "");
    assert!(contains_str("text/html; charset=utf-8", "text/html"));
    assert!(!contains_str("text/htm", "text/html"));
    assert!(rewrites_page("text/html", 200));
    assert!(!rewrites_page("text/html", 404));
    assert!(!rewrites_page("application/javascript", 200));
}

fn app() -> AppRow {
    AppRow {
        id: "rec1".into(),
        app_id: "app_1".into(),
        app_secret_hash: "h".into(),
        name: "n".into(),
        description: "d".into(),
        owner_id: "u1".into(),
        status: "active".into(),
        redirect_uris: "[]".into(),
        icon_url: None,
        icon_object_key: None,
        created_at: "c".into(),
        updated_at: "u".into(),
        secret_rotated_at: None,
    }
}

#[test]
fn token_must_belong_to_the_calling_app() {
    assert!(userinfo_app_check(&Some("app_1".into()), Some(app())).is_ok());
    for token_app in [None, Some("app_2".to_string()), Some(String::new())] {
        let e = userinfo_app_check(&token_app, Some(app())).unwrap_err();
        assert_eq!((e.status, e.code, e.message.as_str()), (403, "token_app_mismatch", "Token was not issued for this application"));
    }
    let e = userinfo_app_check(&Some("app_1".into()), None).unwrap_err();
    assert_eq!((e.status, e.code), (401, "invalid_app_credentials"));
}

#[test]
fn userinfo_profile() {
    let u = UserRow {
        id: "u1".into(),
        email: "a@b.co".into(),
        username: "alice".into(),
        password_hash: "h".into(),
        avatar_seed: Some(String::new()),
        avatar_object_key: None,
        created_at: "c".into(),
        updated_at: "u".into(),
    };
    let p = userinfo_payload("https://auth.example", &u);
    assert_eq!((p.sub.as_str(), p.id.as_str(), p.email.as_str(), p.username.as_str()), ("u1", "u1", "a@b.co", "alice"));
    assert_eq!(p.avatar_seed, "u1");
    assert_eq!(p.avatar_path, "/users/u1/avatar?v=u1");
    assert_eq!(p.avatar_url, "https://auth.example/users/u1/avatar?v=u1");
    assert_eq!(profile_user_id("  u9 ").unwrap(), "u9");
    let e = profile_user_id("   ").unwrap_err();
    assert_eq!((e.status, e.code, e.message.as_str()), (400, "invalid_request", "user id is required"));
}
