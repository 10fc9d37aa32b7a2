use cloudflare_auth::logging::{method_label, request_level, Level};
use cloudflare_auth::router::{normalize_path, route, route_checked, Method, RouteTag};

fn r(m: Method, p: &str) -> (RouteTag, String) {
    let x = route(m, p);
    (x.tag, x.param)
}

#[test]
fn paths_are_normalized() {
    assert_eq!(normalize_path("/auth/me/"), "/auth/me");
    assert_eq!(normalize_path("///"), "/");
    assert_eq!(normalize_path(""), "/");
    assert_eq!(normalize_path("/apps"), "/apps");
}

#[test]
fn fixed_routes() {
    assert_eq!(r(Method::Get, "/health").0, RouteTag::Health);
    assert_eq!(r(Method::Post, "/auth/register").0, RouteTag::Register);
    assert_eq!(r(Method::Post, "/auth/login").0, RouteTag::Login);
    assert_eq!(r(Method::Get, "/auth/me").0, RouteTag::Me);
    assert_eq!(r(Method::Patch, "/auth/me").0, RouteTag::UpdateMe);
    assert_eq!(r(Method::Post, "/auth/logout").0, RouteTag::Logout);
    assert_eq!(r(Method::Post, "/auth/avatar/refresh").0, RouteTag::AvatarRefresh);
    assert_eq!(r(Method::Get, "/userinfo").0, RouteTag::UserInfo);
    assert_eq!(r(Method::Get, "/v1/userinfo").0, RouteTag::UserInfo);
    assert_eq!(r(Method::Get, "/authorize").0, RouteTag::InspectAuthorize);
    assert_eq!(r(Method::Post, "/auth/authorize").0, RouteTag::CompleteAuthorize);
    assert_eq!(r(Method::Post, "/auth/token").0, RouteTag::TokenExchange);
    assert_eq!(r(Method::Post, "/apps").0, RouteTag::CreateApp);
    assert_eq!(r(Method::Get, "/apps").0, RouteTag::ListApps);
    assert_eq!(r(Method::Post, "/health").0, RouteTag::Assets);
    assert_eq!(r(Method::Get, "/").0, RouteTag::Assets);
}

#[test]
fn parameter_routes() {
    assert_eq!(r(Method::Get, "/users/u1/avatar"), (RouteTag::Avatar, "u1".to_string()));
    assert_eq!(r(Method::Get, "/users/u1/profile"), (RouteTag::Profile, "u1".to_string()));
    assert_eq!(r(Method::Get, "/v1/users/u2"), (RouteTag::Profile, "u2".to_string()));
    assert_eq!(r(Method::Get, "/v1/apps/app_1/icon"), (RouteTag::PublicAppIcon, "app_1".to_string()));
    assert_eq!(r(Method::Get, "/apps/rec%201/icon"), (RouteTag::AppIcon, "rec 1".to_string()));
    assert_eq!(r(Method::Get, "/apps/rec1"), (RouteTag::GetApp, "rec1".to_string()));
    assert_eq!(r(Method::Put, "/apps/rec1"), (RouteTag::UpdateApp, "rec1".to_string()));
    assert_eq!(r(Method::Post, "/apps/rec1/rotate-secret"), (RouteTag::RotateSecret, "rec1".to_string()));
    assert_eq!(r(Method::Post, "/apps/rec1/revoke"), (RouteTag::RevokeApp, "rec1".to_string()));
    assert_eq!(r(Method::Delete, "/apps/rec1"), (RouteTag::RevokeApp, "rec1".to_string()));
    assert_eq!(r(Method::Delete, "/apps/rec1/revoke"), (RouteTag::RevokeApp, "rec1".to_string()));
    assert_eq!(r(Method::Post, "/apps/rec1").0, RouteTag::RevokeApp);
    assert_eq!(r(Method::Put, "/apps/rec1/icon").0, RouteTag::Assets);
    assert_eq!(r(Method::Get, "/users/u1").0, RouteTag::Assets);
    assert_eq!(r(Method::Post, "/users/u1/avatar").0, RouteTag::Assets);
}

#[test]
fn undecodable_app_ids() {
    assert!(route_checked(Method::Get, "/apps/%aé").is_none());
    assert_eq!(route_checked(Method::Get, "/apps/a%41").unwrap().param, "aA");
    assert_eq!(route_checked(Method::Get, "/health").unwrap().tag, RouteTag::Health);
}

#[test]
fn method_labels_and_levels() {
    assert_eq!(method_label(Method::Get), "GET");
    assert_eq!(method_label(Method::Options), "OPTIONS");
    assert_eq!(method_label(Method::Other), "OTHER");
    assert_eq!(request_level(404, true), Level::Warn);
    assert_eq!(request_level(503, false), Level::Error);
    assert_eq!(request_level(200, false), Level::Info);
}
