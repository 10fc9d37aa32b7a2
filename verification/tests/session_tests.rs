use cloudflare_auth::db::{SessionRow, UserRow};
use cloudflare_auth::password::{hmac_sha256_b64url, verify_token_at};
use cloudflare_auth::session::{
    auth_context, authenticate_at, bearer_token, check_session, create_session_at, SessionCheck,
};
use cloudflare_auth::time::format_unix_iso;

fn user() -> UserRow {
    UserRow {
        id: "u1".into(),
        email: "a@b.co".into(),
        username: "alice".into(),
        password_hash: "h".into(),
        avatar_seed: None,
        avatar_object_key: None,
        created_at: "c".into(),
        updated_at: "u".into(),
    }
}

#[test]
fn bearer_header() {
    assert_eq!(bearer_token(Some("Bearer  abc ")).unwrap(), "abc");
    assert_eq!(bearer_token(Some("bearer xyz")).unwrap(), "xyz");
    for h in [None, Some("BEARER abc"), Some("Basic abc"), Some("Bearer")] {
        let e = bearer_token(h).unwrap_err();
        assert_eq!((e.status, e.code, e.message.as_str()), (401, "unauthorized", "Missing Authorization: Bearer <token>"));
    }
}

#[test]
fn new_sessions() {
    let s = create_session_at("secret", 3600, 1_700_000_000);
    assert_eq!(s.sid.len(), 36);
    assert_eq!(s.token_hash, hmac_sha256_b64url("secret", &s.token));
    assert_eq!(s.expires_at, format_unix_iso(1_700_003_600));
    assert_eq!(verify_token_at("secret", &s.token, 1_700_000_500), Some((s.sid.clone(), 1_700_003_600)));
}

#[test]
fn issued_session_authenticates_until_expiry() {
    let s = create_session_at("secret", 60, 1_000);
    let header = format!("Bearer {}", s.token);
    assert_eq!(authenticate_at("secret", Some(&header), 1_060).unwrap(), s.sid);
    let e = authenticate_at("secret", Some(&header), 1_061).unwrap_err();
    assert_eq!((e.status, e.message.as_str()), (401, "Invalid or expired token"));
    let e = authenticate_at("other", Some(&header), 1_000).unwrap_err();
    assert_eq!(e.message, "Invalid or expired token");
    let e = authenticate_at("secret", None, 1_000).unwrap_err();
    assert_eq!(e.message, "Missing Authorization: Bearer <token>");
}

fn session(expires: &str) -> SessionRow {
    SessionRow { id: "s1".into(), user_id: "u1".into(), expires_at: expires.into(), app_id: Some("app_1".into()) }
}

#[test]
fn session_states() {
    match check_session(None, 0) {
        SessionCheck::Refuse { error, expired_id } => {
            assert_eq!((error.status, error.message.as_str()), (401, "Session revoked"));
            assert!(expired_id.is_none());
        }
        other => panic!("{other:?}"),
    }
    let exp = format_unix_iso(5_000);
    match check_session(Some(session(&exp)), 5_001) {
        SessionCheck::Refuse { error, expired_id } => {
            assert_eq!(error.message, "Session expired");
            assert_eq!(expired_id.as_deref(), Some("s1"));
        }
        other => panic!("{other:?}"),
    }
    match check_session(Some(session(&exp)), 5_000) {
        SessionCheck::Live(s) => assert_eq!(s.id, "s1"),
        other => panic!("{other:?}"),
    }
}

#[test]
fn context_of_a_session() {
    let ctx = auth_context(session("x"), Some(user())).unwrap();
    assert_eq!((ctx.user.id.as_str(), ctx.session_id.as_str(), ctx.app_id.as_deref()), ("u1", "s1", Some("app_1")));
    let e = auth_context(session("x"), None).unwrap_err();
    assert_eq!((e.status, e.message.as_str()), (404, "User not found"));
}
