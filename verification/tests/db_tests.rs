use cloudflare_auth::db::{
    avatar_path_of, icon_path_of, load_app, load_owned_app, load_user, public_app, public_user,
    AppRow, UserRow,
};

fn user(seed: Option<&str>) -> UserRow {
    UserRow {
        id: "u1".into(),
        email: "a@b.co".into(),
        username: "alice".into(),
        password_hash: "pbkdf2$1$00$00".into(),
        avatar_seed: seed.map(|s| s.to_string()),
        avatar_object_key: None,
        created_at: "2024-01-01 00:00:00".into(),
        updated_at: "2024-01-02 00:00:00".into(),
    }
}

fn app(owner: &str) -> AppRow {
    AppRow {
        id: "rec1".into(),
        app_id: "app_0123".into(),
        app_secret_hash: "hash".into(),
        name: "Demo".into(),
        description: "d".into(),
        owner_id: owner.into(),
        status: "active".into(),
        redirect_uris: r#"["https://a/cb"," "]"#.into(),
        icon_url: Some(" https://cdn/x.png ".into()),
        icon_object_key: None,
        created_at: "c".into(),
        updated_at: "u".into(),
        secret_rotated_at: None,
    }
}

#[test]
fn public_user_projection() {
    let p = public_user(&user(Some("s33d")));
    assert_eq!(p.id, "u1");
    assert_eq!(p.avatar_seed, "s33d");
    assert_eq!(p.avatar_url, "/users/u1/avatar?v=s33d");
    let q = public_user(&user(None));
    assert_eq!(q.avatar_seed, "u1");
    assert_eq!(q.avatar_url, "/users/u1/avatar?v=u1");
}

#[test]
fn public_app_projection() {
    let p = public_app(&app("u1"));
    assert_eq!(p.app_id, "app_0123");
    assert_eq!(p.redirect_uris, vec!["https://a/cb".to_string()]);
    assert_eq!(p.icon_url, Some("https://cdn/x.png".to_string()));
    assert_eq!(p.icon_path, "/v1/apps/app_0123/icon");
}

#[test]
fn paths() {
    assert_eq!(avatar_path_of("id", "seed"), "/users/id/avatar?v=seed");
    assert_eq!(icon_path_of("app_1"), "/v1/apps/app_1/icon");
}

#[test]
fn lookups() {
    let e = load_user(None).unwrap_err();
    assert_eq!((e.status, e.code, e.message.as_str()), (404, "not_found", "User not found"));
    assert_eq!(load_user(Some(user(None))).unwrap().id, "u1");
    let e = load_app(None).unwrap_err();
    assert_eq!((e.status, e.message.as_str()), (404, "App not found"));
}

#[test]
fn other_owners_app_looks_missing() {
    let missing = load_owned_app(None, "u1").unwrap_err();
    let foreign = load_owned_app(Some(app("u2")), "u1").unwrap_err();
    assert_eq!((missing.status, missing.code, missing.message.clone()), (foreign.status, foreign.code, foreign.message.clone()));
    assert_eq!(load_owned_app(Some(app("u1")), "u1").unwrap().id, "rec1");
}
