use cloudflare_auth::authorize::{
    authorized_app, check_auth_code, check_client_secret, code_redirect, complete_authorize,
    complete_request, exchange_request, grant_exchange, inspect_authorize, inspect_request, load_active_app,
    new_auth_code, normalize_uri, parse_rt, query_from_url, query_param, redirect_allowed,
    token_redirect, AuthorizeGrant, AuthorizeQuery, CompleteRequest, InspectRequest,
};
use cloudflare_auth::db::{AppRow, AuthCodeRow};
use cloudflare_auth::password::hash_password_with_salt;
use cloudflare_auth::time::format_unix_iso;

fn app(status: &str) -> AppRow {
    AppRow {
        id: "rec1".into(),
        app_id: "app_1".into(),
        app_secret_hash: hash_password_with_salt("sec_good", 1, "0011"),
        name: "Demo".into(),
        description: "A demo".into(),
        owner_id: "u1".into(),
        status: status.into(),
        redirect_uris: r#"["https://a.example/cb", "https://b.example/cb"]"#.into(),
        icon_url: Some("https://cdn.example/i.png".into()),
        icon_object_key: None,
        created_at: "c".into(),
        updated_at: "u".into(),
        secret_rotated_at: None,
    }
}

fn query(client: Option<&str>, redirect: Option<&str>, rt: Option<&str>, state: Option<&str>) -> AuthorizeQuery {
    AuthorizeQuery {
        client_id: client.map(String::from),
        redirect_uri: redirect.map(String::from),
        state: state.map(String::from),
        response_type: rt.map(String::from),
    }
}

#[test]
fn query_parameters() {
    let q = query_from_url(
        "https://auth.example/authorize?app_id=app_1&redirect_uri=https%3A%2F%2Fa.example%2Fcb&state=x%20y&response_type=token",
    );
    assert_eq!(q.client_id.as_deref(), Some("app_1"));
    assert_eq!(q.redirect_uri.as_deref(), Some("https://a.example/cb"));
    assert_eq!(q.state.as_deref(), Some("x y"));
    assert_eq!(q.response_type.as_deref(), Some("token"));
    let q = query_from_url("https://auth.example/authorize?client_id=c1&app_id=a1&client_id=c2");
    assert_eq!(q.client_id.as_deref(), Some("c2"));
    assert_eq!(q.redirect_uri, None);
    let q = query_from_url("not a url");
    assert_eq!(q.client_id, None);
    assert_eq!(query_param("https://x/y?v=%E4%B8%AD&w", "v").as_deref(), Some("中"));
    assert_eq!(query_param("https://x/y", "v"), None);
}

#[test]
fn response_types() {
    assert_eq!(parse_rt(None).unwrap(), "code");
    assert_eq!(parse_rt(Some("CODE")).unwrap(), "code");
    assert_eq!(parse_rt(Some("Token")).unwrap(), "token");
    let e = parse_rt(Some(" code")).unwrap_err();
    assert_eq!((e.status, e.code, e.message.as_str()), (400, "unsupported_response_type", "response_type must be code or token"));
}

#[test]
fn inspect_parameter_errors_in_order() {
    let e = inspect_request(&query(Some("  "), None, Some("bad"), None)).unwrap_err();
    assert_eq!((e.status, e.code, e.message.as_str()), (400, "invalid_request", "client_id is required"));
    let e = inspect_request(&query(Some("app_1"), Some(" "), Some("bad"), None)).unwrap_err();
    assert_eq!(e.message, "redirect_uri is required");
    let e = inspect_request(&query(Some("app_1"), Some("https://a.example/cb"), Some("bad"), None)).unwrap_err();
    assert_eq!(e.code, "unsupported_response_type");
    let r = inspect_request(&query(Some(" app_1 "), Some(" https://a.example/cb "), None, None)).unwrap();
    assert_eq!((r.client_id.as_str(), r.redirect_uri.as_str(), r.state.as_str(), r.response_type.as_str()), ("app_1", "https://a.example/cb", "", "code"));
}

fn inspect(redirect: &str) -> InspectRequest {
    InspectRequest {
        client_id: "app_1".into(),
        redirect_uri: redirect.into(),
        state: "st".into(),
        response_type: "code".into(),
    }
}

#[test]
fn inspect_application_card() {
    let info = inspect_authorize(&inspect("https://b.example/cb"), Some(app("active"))).unwrap();
    assert_eq!(info.app_id, "app_1");
    assert_eq!(info.name, "Demo");
    assert_eq!(info.icon_url.as_deref(), Some("https://cdn.example/i.png"));
    assert_eq!(info.icon_path, "/v1/apps/app_1/icon");
    assert_eq!(info.state, "st");
}

#[test]
fn unknown_and_revoked_clients_look_alike() {
    let a = inspect_authorize(&inspect("https://a.example/cb"), None).unwrap_err();
    let b = inspect_authorize(&inspect("https://a.example/cb"), Some(app("revoked"))).unwrap_err();
    assert_eq!((a.status, a.code, a.message.clone()), (400, "invalid_client", "Unknown or revoked client".to_string()));
    assert_eq!((b.status, b.code, b.message), (a.status, a.code, a.message));
    assert!(load_active_app(Some(app("active"))).is_ok());
}

#[test]
fn redirect_must_be_registered_exactly() {
    assert!(redirect_allowed(&app("active"), "https://a.example/cb"));
    assert!(!redirect_allowed(&app("active"), "https://a.example/cb/"));
    assert!(!redirect_allowed(&app("active"), "https://A.example/cb"));
    let e = authorized_app(Some(app("active")), "https://evil.example/cb").unwrap_err();
    assert_eq!((e.status, e.code, e.message.as_str()), (400, "invalid_request", "redirect_uri is not registered for this app"));
    assert_eq!(normalize_uri("  https://a.example/cb \n"), "https://a.example/cb");
}

#[test]
fn complete_parameters() {
    let e = complete_request("", "", "nope").unwrap_err();
    assert_eq!(e.code, "unsupported_response_type");
    let e = complete_request(" ", "https://a.example/cb", "code").unwrap_err();
    assert_eq!((e.status, e.message.as_str()), (400, "client_id and redirect_uri are required"));
    let r = complete_request(" app_1 ", " https://a.example/cb ", "TOKEN").unwrap();
    assert_eq!((r.client_id.as_str(), r.redirect_uri.as_str(), r.response_type.as_str()), ("app_1", "https://a.example/cb", "token"));
}

#[test]
fn completion_with_a_code() {
    let req = CompleteRequest { client_id: "app_1".into(), redirect_uri: "https://a.example/cb".into(), response_type: "code".into() };
    match complete_authorize(&req, Some(app("active")), "xyz", 1_700_000_000).unwrap() {
        AuthorizeGrant::Code { app_id, code, expires_at, redirect_to } => {
            assert_eq!(app_id, "app_1");
            assert!(code.starts_with("ac_"));
            assert_eq!(code.len(), 51);
            assert_eq!(expires_at, format_unix_iso(1_700_000_300));
            assert_eq!(redirect_to, format!("https://a.example/cb?code={code}&state=xyz"));
        }
        other => panic!("unexpected grant {other:?}"),
    }
}

#[test]
fn completion_with_a_token() {
    let req = CompleteRequest { client_id: "app_1".into(), redirect_uri: "https://a.example/cb".into(), response_type: "token".into() };
    match complete_authorize(&req, Some(app("active")), "", 0).unwrap() {
        AuthorizeGrant::Token { app_id } => assert_eq!(app_id, "app_1"),
        other => panic!("unexpected grant {other:?}"),
    }
    assert!(complete_authorize(&req, Some(app("revoked")), "", 0).is_err());
}

#[test]
fn redirect_addresses() {
    assert_eq!(code_redirect("https://a/cb", "ac_1", ""), "https://a/cb?code=ac_1");
    assert_eq!(code_redirect("https://a/cb", "ac_1", "s"), "https://a/cb?code=ac_1&state=s");
    assert_eq!(
        token_redirect("https://a/cb", "t.k.n", 86400, "s"),
        "https://a/cb#access_token=t.k.n&token_type=Bearer&expires_in=86400&state=s"
    );
    assert_eq!(token_redirect("https://a/cb", "t", 5, ""), "https://a/cb#access_token=t&token_type=Bearer&expires_in=5");
    let c = new_auth_code();
    assert!(c.starts_with("ac_") && c[3..].chars().all(|x| x.is_ascii_hexdigit()) && c.len() == 51);
}

#[test]
fn exchange_parameters() {
    let e = exchange_request(" ", "app_1", "s").unwrap_err();
    assert_eq!((e.status, e.code, e.message.as_str()), (400, "invalid_request", "code, client_id and client_secret are required"));
    assert!(exchange_request("c", "app_1", "").is_err());
    let r = exchange_request(" ac_1 ", " app_1 ", " s ").unwrap();
    assert_eq!((r.code.as_str(), r.client_id.as_str(), r.client_secret.as_str()), ("ac_1", "app_1", " s "));
}

fn code_row(used: i64, app_id: &str, expires: &str) -> AuthCodeRow {
    AuthCodeRow { app_id: app_id.into(), user_id: "u1".into(), expires_at: expires.into(), used }
}

#[test]
fn codes_are_single_use_per_client_and_expire() {
    let exp = format_unix_iso(1_000);
    assert_eq!(check_auth_code(Some(code_row(0, "app_1", &exp)), "app_1", 1_000).unwrap().user_id, "u1");
    for (row, client, now) in [
        (None, "app_1", 0),
        (Some(code_row(1, "app_1", &exp)), "app_1", 0),
        (Some(code_row(0, "app_2", &exp)), "app_1", 0),
    ] {
        let e = check_auth_code(row, client, now).unwrap_err();
        assert_eq!((e.status, e.code, e.message.as_str()), (400, "invalid_grant", "Authorization code is invalid or already used"));
    }
    let e = check_auth_code(Some(code_row(0, "app_1", &exp)), "app_1", 1_001).unwrap_err();
    assert_eq!(e.message, "Authorization code expired");
}

#[test]
fn client_secrets() {
    assert!(check_client_secret(&app("active"), "sec_good").is_ok());
    let e = check_client_secret(&app("active"), "sec_bad").unwrap_err();
    assert_eq!((e.status, e.code, e.message.as_str()), (401, "invalid_client", "Invalid client secret"));
}

#[test]
fn granted_exchange_spends_the_code() {
    let exp = format_unix_iso(1_000);
    let req = exchange_request(" c0de ", "app_1", "sec_good").unwrap();
    let g = grant_exchange(&req, Some(code_row(0, "app_1", &exp)), 1_000, Some(app("active"))).unwrap();
    assert_eq!((g.user_id.as_str(), g.app.app_id.as_str(), g.spend_code.as_str()), ("u1", "app_1", "c0de"));
    assert_eq!(g.spent_row.used, 1);
    let e = grant_exchange(&req, Some(g.spent_row.clone()), 0, Some(app("active"))).unwrap_err();
    assert_eq!((e.status, e.code, e.message.as_str()), (400, "invalid_grant", "Authorization code is invalid or already used"));
}

#[test]
fn exchange_checks_code_then_client_then_secret() {
    let exp = format_unix_iso(1_000);
    let req = exchange_request("c0de", "app_1", "sec_good").unwrap();
    let e = grant_exchange(&req, Some(code_row(0, "app_1", &exp)), 1_001, Some(app("revoked"))).unwrap_err();
    assert_eq!(e.message, "Authorization code expired");
    let e = grant_exchange(&req, Some(code_row(0, "app_1", &exp)), 1_000, Some(app("revoked"))).unwrap_err();
    assert_eq!((e.status, e.code), (400, "invalid_client"));
    let e = grant_exchange(&req, Some(code_row(0, "app_1", &exp)), 1_000, None).unwrap_err();
    assert_eq!((e.status, e.code), (400, "invalid_client"));
    let bad = exchange_request("c0de", "app_1", "sec_bad").unwrap();
    let e = grant_exchange(&bad, Some(code_row(0, "app_1", &exp)), 1_000, Some(app("active"))).unwrap_err();
    assert_eq!((e.status, e.code, e.message.as_str()), (401, "invalid_client", "Invalid client secret"));
}
