use cloudflare_auth::account::{
    claim, email_change, login_request, login_user, new_user, password_change, register_conflict,
    register_request, registration_open, user_update, Registration,
};
use cloudflare_auth::db::UserRow;
use cloudflare_auth::password::{hash_password_with_salt, verify_password};

fn user(hash: &str) -> UserRow {
    UserRow {
        id: "u1".into(),
        email: "alice@example.com".into(),
        username: "alice".into(),
        password_hash: hash.into(),
        avatar_seed: None,
        avatar_object_key: None,
        created_at: "c".into(),
        updated_at: "u".into(),
    }
}

#[test]
fn registration_switch() {
    assert!(registration_open(true).is_ok());
    let e = registration_open(false).unwrap_err();
    assert_eq!((e.status, e.code, e.message.as_str()), (403, "registration_disabled", "Registration is disabled"));
}

#[test]
fn registration_checks() {
    let r = register_request("Alice@Example.COM", "alice_1", "password123", 3, 32, 8).unwrap();
    assert_eq!((r.email.as_str(), r.username.as_str(), r.password.as_str()), ("alice@example.com", "alice_1", "password123"));
    let e = register_request("nope", "alice", "password123", 3, 32, 8).unwrap_err();
    assert_eq!((e.status, e.code, e.message.as_str()), (400, "invalid_email", "Email is invalid"));
    let e = register_request("a@b.co", "al", "password123", 3, 32, 8).unwrap_err();
    assert_eq!((e.code, e.message.as_str()), ("invalid_username", "Username must be 3-32 chars of letters, numbers, underscore"));
    let e = register_request("a@b.co", "alice", "短密码", 3, 32, 8).unwrap_err();
    assert_eq!((e.code, e.message.as_str()), ("weak_password", "Password must be at least 8 characters"));
    assert!(register_request("a@b.co", "alice", "密码密码密码密码", 3, 32, 8).is_ok());
}

#[test]
fn taken_names() {
    assert!(register_conflict(false).is_ok());
    let e = register_conflict(true).unwrap_err();
    assert_eq!((e.status, e.code, e.message.as_str()), (409, "conflict", "Email or username already taken"));
    assert_eq!(claim(Some("x".into()), false, "Email already taken").unwrap(), Some("x".to_string()));
    assert_eq!(claim(None, true, "Email already taken").unwrap(), None);
    let e = claim(Some("x".into()), true, "Username already taken").unwrap_err();
    assert_eq!((e.status, e.message.as_str()), (409, "Username already taken"));
}

#[test]
fn new_users() {
    let reg = Registration { email: "a@b.co".into(), username: "al1".into(), password: "pw-123456".into() };
    let u = new_user(&reg, 1000);
    assert_eq!(u.id.len(), 32);
    assert_eq!(u.avatar_seed.len(), 16);
    assert!(verify_password("pw-123456", &u.password_hash));
    assert!(u.password_hash.starts_with("pbkdf2$1000$"));
}

#[test]
fn login_fields() {
    assert_eq!(login_request("A@B.CO", "pw").unwrap(), ("a@b.co".to_string(), "pw".to_string()));
    for (email, pw) in [("", "pw"), ("a@b.co", "")] {
        let e = login_request(email, pw).unwrap_err();
        assert_eq!((e.status, e.code, e.message.as_str()), (400, "invalid_credentials", "Email and password are required"));
    }
}

#[test]
fn unknown_user_and_wrong_password_look_alike() {
    let hash = hash_password_with_salt("right", 1, "abcd");
    assert_eq!(login_user(Some(user(&hash)), "right").unwrap().id, "u1");
    let a = login_user(Some(user(&hash)), "wrong").unwrap_err();
    let b = login_user(None, "right").unwrap_err();
    assert_eq!((a.status, a.code, a.message.as_str()), (401, "invalid_credentials", "Invalid email or password"));
    assert_eq!((b.status, b.code, b.message), (a.status, a.code, a.message));
}

#[test]
fn profile_email_changes() {
    assert_eq!(email_change(None, "a@b.co").unwrap(), None);
    assert_eq!(email_change(Some(" A@B.CO "), "a@b.co").unwrap(), None);
    assert_eq!(email_change(Some("New@B.co"), "a@b.co").unwrap(), Some("new@b.co".to_string()));
    let e = email_change(Some("bad"), "a@b.co").unwrap_err();
    assert_eq!(e.code, "invalid_email");
}

#[test]
fn profile_username_changes() {
    assert_eq!(cloudflare_auth::account::username_change(Some(" alice "), "alice", 3, 32).unwrap(), None);
    assert_eq!(cloudflare_auth::account::username_change(Some("bob_2"), "alice", 3, 32).unwrap(), Some("bob_2".to_string()));
    let e = cloudflare_auth::account::username_change(Some("b"), "alice", 3, 32).unwrap_err();
    assert_eq!(e.message, "Username must be 3-32 chars of letters, numbers, underscore");
}

#[test]
fn profile_password_changes() {
    let hash = hash_password_with_salt("old-pass", 1, "abcd");
    assert_eq!(password_change(None, None, &hash, 8, 1000).unwrap(), None);
    assert_eq!(password_change(Some(""), Some("x"), &hash, 8, 1000).unwrap(), None);
    let e = password_change(Some("new-pass-9"), Some("nope"), &hash, 8, 1000).unwrap_err();
    assert_eq!((e.status, e.code, e.message.as_str()), (401, "invalid_credentials", "Current password is incorrect"));
    let e = password_change(Some("new-pass-9"), None, &hash, 8, 1000).unwrap_err();
    assert_eq!(e.status, 401);
    let e = password_change(Some("short"), Some("old-pass"), &hash, 8, 1000).unwrap_err();
    assert_eq!(e.code, "weak_password");
    let h = password_change(Some("new-pass-9"), Some("old-pass"), &hash, 8, 1000).unwrap().unwrap();
    assert!(verify_password("new-pass-9", &h));
}

#[test]
fn profile_update_columns() {
    let u = user("h");
    let none = user_update(&u, None, None, None);
    assert!(!none.changed);
    assert_eq!((none.email.as_str(), none.username.as_str(), none.password_hash.as_str()), ("alice@example.com", "alice", "h"));
    let some = user_update(&u, None, Some("bob".into()), None);
    assert!(some.changed);
    assert_eq!(some.username, "bob");
}
