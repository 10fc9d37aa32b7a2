//! The route table: which handler a method and a path reach.

use vstd::prelude::*;
use vstd::utf8::encode_utf8;

use crate::config::strip_slashes;
use crate::http::{pct_defined, spec_url_decode, url_decodable, url_decode};
use crate::text::{
    chars_eq, chars_of, ends_with, has_prefix, has_suffix, split_once, split_once_chars, starts_with,
    string_of, sub_chars,
};

verus! {

/// The HTTP methods the service tells apart.
#[derive(PartialEq, Eq, Structural, Clone, Copy, Debug)]
pub enum Method {
    Get,
    Post,
    Put,
    Patch,
    Delete,
    Head,
    Options,
    Other,
}

/// The handler a request reaches.
#[derive(PartialEq, Eq, Structural, Clone, Copy, Debug)]
pub enum RouteTag {
    Health,
    Register,
    Login,
    Me,
    UpdateMe,
    Logout,
    AvatarRefresh,
    /// `POST /auth/avatar`: the body is the new avatar image.
    UploadAvatar,
    UserInfo,
    InspectAuthorize,
    CompleteAuthorize,
    TokenExchange,
    /// `GET /users/:id/avatar`; the parameter is the user id.
    Avatar,
    /// `GET /users/:id/profile` or `GET /v1/users/:id`.
    Profile,
    /// `GET /v1/apps/:app_id/icon`, by public application id.
    PublicAppIcon,
    CreateApp,
    ListApps,
    /// `GET /apps/:id/icon`; the parameter is the public application id.
    AppIcon,
    GetApp,
    UpdateApp,
    RotateSecret,
    RevokeApp,
    /// `POST /apps/:id/icon`: the body is the new icon image.
    UploadAppIcon,
    /// Anything else: the static console.
    Assets,
}

/// A route and its path parameter (empty where the route has none).
#[derive(Debug)]
pub struct Route {
    pub tag: RouteTag,
    pub param: String,
}

/// The path without trailing slashes, `/` when nothing is left.
pub open spec fn spec_normalize_path(p: Seq<char>) -> Seq<char> {
    if strip_slashes(p).len() == 0 {
        "/"@
    } else {
        strip_slashes(p)
    }
}

pub fn normalize_path(path: &str) -> (r: String)
    ensures
        r@ == spec_normalize_path(path@),
{
    let c = chars_of(path);
    let mut end: usize = c.len();
    assert(c@.take(end as int) =~= c@);
    while end > 0 && c[end - 1] == '/'
        invariant
            end <= c@.len(),
            strip_slashes(c@) == strip_slashes(c@.take(end as int)),
        decreases end,
    {
        assert(c@.take(end as int).drop_last() =~= c@.take(end as int - 1));
        end = end - 1;
    }
    if end == 0 {
        assert(strip_slashes(c@.take(0)) =~= Seq::<char>::empty());
        return String::from_str("/");
    }
    let t = sub_chars(c.as_slice(), 0, end);
    assert(t@ =~= c@.take(end as int));
    string_of(&t)
}

pub open spec fn none() -> Seq<char> {
    Seq::<char>::empty()
}

/// `s` without its last `n` characters.
pub open spec fn cut_end(s: Seq<char>, n: int) -> Seq<char> {
    s.subrange(0, s.len() - n)
}

/// `/users/:id/avatar` and `/users/:id/profile`.
pub open spec fn users_route(p: Seq<char>) -> Option<(RouteTag, Seq<char>)> {
    let rest = p.skip(7);
    if !has_prefix(p, "/users/"@) {
        None
    } else if has_suffix(rest, "/avatar"@) {
        Some((RouteTag::Avatar, cut_end(rest, 7)))
    } else if has_suffix(rest, "/profile"@) {
        Some((RouteTag::Profile, cut_end(rest, 8)))
    } else {
        None
    }
}

/// The record id of an `/apps/...` path, percent-decoded, and the action
/// after it.
pub open spec fn apps_parts(rest: Seq<char>) -> (Seq<char>, Option<Seq<char>>) {
    match split_once(rest, '/') {
        Some((id, action)) => (id, Some(action)),
        None => (rest, None),
    }
}

/// The routes under `/apps/`.
pub open spec fn apps_route(m: Method, rest: Seq<char>) -> Option<(RouteTag, Seq<char>)> {
    let (raw, action) = apps_parts(rest);
    let id = spec_url_decode(raw);
    if m == Method::Get && action == Some("icon"@) {
        Some((RouteTag::AppIcon, id))
    } else if m == Method::Get && action is None {
        Some((RouteTag::GetApp, id))
    } else if m == Method::Put && action is None {
        Some((RouteTag::UpdateApp, id))
    } else if m == Method::Post && action == Some("rotate-secret"@) {
        Some((RouteTag::RotateSecret, id))
    } else if (m == Method::Post || m == Method::Delete) && (action == Some("revoke"@)
        || action is None) {
        Some((RouteTag::RevokeApp, id))
    } else if m == Method::Post && action == Some("icon"@) {
        Some((RouteTag::UploadAppIcon, id))
    } else {
        None
    }
}

/// The route of a method and a normalized path, checked in the service's
/// order.
pub open spec fn spec_route(m: Method, p: Seq<char>) -> (RouteTag, Seq<char>) {
    if m == Method::Get && p == "/health"@ {
        (RouteTag::Health, none())
    } else if m == Method::Post && p == "/auth/register"@ {
        (RouteTag::Register, none())
    } else if m == Method::Post && p == "/auth/login"@ {
        (RouteTag::Login, none())
    } else if m == Method::Get && p == "/auth/me"@ {
        (RouteTag::Me, none())
    } else if m == Method::Patch && p == "/auth/me"@ {
        (RouteTag::UpdateMe, none())
    } else if m == Method::Post && p == "/auth/logout"@ {
        (RouteTag::Logout, none())
    } else if m == Method::Post && p == "/auth/avatar/refresh"@ {
        (RouteTag::AvatarRefresh, none())
    } else if m == Method::Post && p == "/auth/avatar"@ {
        (RouteTag::UploadAvatar, none())
    } else if m == Method::Get && (p == "/userinfo"@ || p == "/v1/userinfo"@) {
        (RouteTag::UserInfo, none())
    } else if m == Method::Get && p == "/authorize"@ {
        (RouteTag::InspectAuthorize, none())
    } else if m == Method::Post && p == "/auth/authorize"@ {
        (RouteTag::CompleteAuthorize, none())
    } else if m == Method::Post && p == "/auth/token"@ {
        (RouteTag::TokenExchange, none())
    } else if m == Method::Get && users_route(p) is Some {
        users_route(p)->0
    } else if m == Method::Get && has_prefix(p, "/v1/users/"@) {
        (RouteTag::Profile, p.skip(10))
    } else if m == Method::Get && has_prefix(p, "/v1/apps/"@) && has_suffix(p.skip(9), "/icon"@) {
        (RouteTag::PublicAppIcon, cut_end(p.skip(9), 5))
    } else if m == Method::Post && p == "/apps"@ {
        (RouteTag::CreateApp, none())
    } else if m == Method::Get && p == "/apps"@ {
        (RouteTag::ListApps, none())
    } else if has_prefix(p, "/apps/"@) && apps_route(m, p.skip(6)) is Some {
        apps_route(m, p.skip(6))->0
    } else {
        (RouteTag::Assets, none())
    }
}

/// Routing can read the path: the record id of an `/apps/...` path can be
/// percent-decoded (elsewhere slicing it would cut a character and panic).
pub open spec fn route_defined(p: Seq<char>) -> bool {
    has_prefix(p, "/apps/"@) ==> pct_defined(encode_utf8(apps_parts(p.skip(6)).0), 0)
}

fn is_path(p: &Vec<char>, lit: &str) -> (r: bool)
    ensures
        r == (p@ == lit@),
{
    chars_eq(p.as_slice(), chars_of(lit).as_slice())
}

fn tagged(tag: RouteTag) -> (r: Route)
    ensures
        r.tag == tag,
        r.param@ == none(),
{
    Route { tag, param: String::new() }
}

/// The route of `method` and the normalized `path`.
pub fn route(method: Method, path: &str) -> (r: Route)
    requires
        route_defined(path@),
    ensures
        (r.tag, r.param@) == spec_route(method, path@),
{
    let p = chars_of(path);
    let get = method == Method::Get;
    let post = method == Method::Post;
    if get && is_path(&p, "/health") {
        return tagged(RouteTag::Health);
    }
    if post && is_path(&p, "/auth/register") {
        return tagged(RouteTag::Register);
    }
    if post && is_path(&p, "/auth/login") {
        return tagged(RouteTag::Login);
    }
    if get && is_path(&p, "/auth/me") {
        return tagged(RouteTag::Me);
    }
    if method == Method::Patch && is_path(&p, "/auth/me") {
        return tagged(RouteTag::UpdateMe);
    }
    if post && is_path(&p, "/auth/logout") {
        return tagged(RouteTag::Logout);
    }
    if post && is_path(&p, "/auth/avatar/refresh") {
        return tagged(RouteTag::AvatarRefresh);
    }
    if post && is_path(&p, "/auth/avatar") {
        return tagged(RouteTag::UploadAvatar);
    }
    if get && (is_path(&p, "/userinfo") || is_path(&p, "/v1/userinfo")) {
        return tagged(RouteTag::UserInfo);
    }
    if get && is_path(&p, "/authorize") {
        return tagged(RouteTag::InspectAuthorize);
    }
    if post && is_path(&p, "/auth/authorize") {
        return tagged(RouteTag::CompleteAuthorize);
    }
    if post && is_path(&p, "/auth/token") {
        return tagged(RouteTag::TokenExchange);
    }
    proof {
        reveal_strlit("/users/");
        reveal_strlit("/avatar");
        reveal_strlit("/profile");
        reveal_strlit("/v1/users/");
        reveal_strlit("/v1/apps/");
        reveal_strlit("/icon");
        reveal_strlit("/apps/");
    }
    if get {
        if starts_with(p.as_slice(), "/users/") {
            let rest = sub_chars(p.as_slice(), 7, p.len());
            assert(rest@ =~= p@.skip(7));
            if ends_with(rest.as_slice(), "/avatar") {
                let id = sub_chars(rest.as_slice(), 0, rest.len() - 7);
                return Route { tag: RouteTag::Avatar, param: string_of(&id) };
            }
            if ends_with(rest.as_slice(), "/profile") {
                let id = sub_chars(rest.as_slice(), 0, rest.len() - 8);
                return Route { tag: RouteTag::Profile, param: string_of(&id) };
            }
        }
        if starts_with(p.as_slice(), "/v1/users/") {
            let id = sub_chars(p.as_slice(), 10, p.len());
            assert(id@ =~= p@.skip(10));
            return Route { tag: RouteTag::Profile, param: string_of(&id) };
        }
        if starts_with(p.as_slice(), "/v1/apps/") {
            let rest = sub_chars(p.as_slice(), 9, p.len());
            assert(rest@ =~= p@.skip(9));
            if ends_with(rest.as_slice(), "/icon") {
                let id = sub_chars(rest.as_slice(), 0, rest.len() - 5);
                return Route { tag: RouteTag::PublicAppIcon, param: string_of(&id) };
            }
        }
    }
    if post && is_path(&p, "/apps") {
        return tagged(RouteTag::CreateApp);
    }
    if get && is_path(&p, "/apps") {
        return tagged(RouteTag::ListApps);
    }
    if starts_with(p.as_slice(), "/apps/") {
        let rest = sub_chars(p.as_slice(), 6, p.len());
        assert(rest@ =~= p@.skip(6));
        let (raw, action) = match split_once_chars(&rest, '/') {
            Some((i, a)) => (i, Some(a)),
            None => (rest, None),
        };
        let ghost gaction = match &action {
            Some(a) => Some(a@),
            None => None::<Seq<char>>,
        };
        assert((raw@, gaction) == apps_parts(p@.skip(6)));
        let id = url_decode(string_of(&raw).as_str());
        let is_icon = match &action {
            Some(a) => is_path(a, "icon"),
            None => false,
        };
        let is_rotate = match &action {
            Some(a) => is_path(a, "rotate-secret"),
            None => false,
        };
        let is_revoke = match &action {
            Some(a) => is_path(a, "revoke"),
            None => false,
        };
        let bare = action.is_none();
        if get && is_icon {
            return Route { tag: RouteTag::AppIcon, param: id };
        }
        if get && bare {
            return Route { tag: RouteTag::GetApp, param: id };
        }
        if method == Method::Put && bare {
            return Route { tag: RouteTag::UpdateApp, param: id };
        }
        if post && is_rotate {
            return Route { tag: RouteTag::RotateSecret, param: id };
        }
        if (post || method == Method::Delete) && (is_revoke || bare) {
            return Route { tag: RouteTag::RevokeApp, param: id };
        }
        if post && is_icon {
            return Route { tag: RouteTag::UploadAppIcon, param: id };
        }
    }
    tagged(RouteTag::Assets)
}

/// `route` where routing can read the path, `None` where decoding the
/// record id would panic.
pub fn route_checked(method: Method, path: &str) -> (r: Option<Route>)
    ensures
        r is Some <==> route_defined(path@),
        r matches Some(x) ==> (x.tag, x.param@) == spec_route(method, path@),
{
    let p = chars_of(path);
    proof {
        reveal_strlit("/apps/");
    }
    if starts_with(p.as_slice(), "/apps/") {
        let rest = sub_chars(p.as_slice(), 6, p.len());
        assert(rest@ =~= p@.skip(6));
        let raw = match split_once_chars(&rest, '/') {
            Some((i, _)) => i,
            None => rest,
        };
        if !url_decodable(string_of(&raw).as_str()) {
            return None;
        }
    }
    Some(route(method, path))
}

} // verus!
