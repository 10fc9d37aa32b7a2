//! Stored rows and the public projections of users and applications.

use vstd::prelude::*;

use crate::http::{api_err, ApiError};
use crate::text::{chars_eq, chars_of, push_str, string_of};
use crate::validate::{
    normalize_icon_url, parse_redirect_uris, spec_normalize_icon_url, spec_parse_redirect_uris,
};

verus! {

/// A row of `apps`.
#[derive(Clone, Debug)]
pub struct AppRow {
    pub id: String,
    pub app_id: String,
    pub app_secret_hash: String,
    pub name: String,
    pub description: String,
    pub owner_id: String,
    pub status: String,
    pub redirect_uris: String,
    pub icon_url: Option<String>,
    pub icon_object_key: Option<String>,
    pub created_at: String,
    pub updated_at: String,
    pub secret_rotated_at: Option<String>,
}

/// A row of `users`.
#[derive(Clone, Debug)]
pub struct UserRow {
    pub id: String,
    pub email: String,
    pub username: String,
    pub password_hash: String,
    pub avatar_seed: Option<String>,
    pub avatar_object_key: Option<String>,
    pub created_at: String,
    pub updated_at: String,
}

/// A row of `sessions`.
#[derive(Clone, Debug)]
pub struct SessionRow {
    pub id: String,
    pub user_id: String,
    pub expires_at: String,
    pub app_id: Option<String>,
}

/// A row of `auth_codes`.
#[derive(Clone, Debug)]
pub struct AuthCodeRow {
    pub app_id: String,
    pub user_id: String,
    pub expires_at: String,
    pub used: i64,
}

/// The avatar columns of a user.
#[derive(Clone, Debug)]
pub struct AvatarSeedRow {
    pub id: String,
    pub avatar_seed: Option<String>,
    pub avatar_object_key: Option<String>,
}

/// A user as the API shows it.
#[derive(Debug)]
pub struct PublicUser {
    pub id: String,
    pub email: String,
    pub username: String,
    pub created_at: String,
    pub avatar_seed: String,
    pub avatar_url: String,
}

/// An application as the API shows it (never its secret hash).
#[derive(Debug)]
pub struct PublicApp {
    pub id: String,
    pub app_id: String,
    pub name: String,
    pub description: String,
    pub status: String,
    pub redirect_uris: Vec<String>,
    pub icon_url: Option<String>,
    pub icon_path: String,
    pub created_at: String,
    pub updated_at: String,
    pub secret_rotated_at: Option<String>,
}

pub open spec fn opt_chars(o: Option<String>) -> Option<Seq<char>> {
    match o {
        Some(s) => Some(s@),
        None => None,
    }
}

/// The stored avatar seed, or the user id when there is none.
pub open spec fn public_seed(row: UserRow) -> Seq<char> {
    match row.avatar_seed {
        Some(s) => s@,
        None => row.id@,
    }
}

/// `/users/<id>/avatar?v=<seed>`.
pub open spec fn avatar_path(id: Seq<char>, seed: Seq<char>) -> Seq<char> {
    "/users/"@ + id + "/avatar?v="@ + seed
}

/// `/v1/apps/<app_id>/icon`.
pub open spec fn icon_path(app_id: Seq<char>) -> Seq<char> {
    "/v1/apps/"@ + app_id + "/icon"@
}

pub fn avatar_path_of(id: &str, seed: &str) -> (r: String)
    ensures
        r@ == avatar_path(id@, seed@),
{
    let mut v: Vec<char> = Vec::new();
    push_str(&mut v, "/users/");
    push_str(&mut v, id);
    push_str(&mut v, "/avatar?v=");
    push_str(&mut v, seed);
    assert(v@ =~= avatar_path(id@, seed@));
    string_of(&v)
}

pub fn icon_path_of(app_id: &str) -> (r: String)
    ensures
        r@ == icon_path(app_id@),
{
    let mut v: Vec<char> = Vec::new();
    push_str(&mut v, "/v1/apps/");
    push_str(&mut v, app_id);
    push_str(&mut v, "/icon");
    assert(v@ =~= icon_path(app_id@));
    string_of(&v)
}

fn clone_opt(o: &Option<String>) -> (r: Option<String>)
    ensures
        opt_chars(r) == opt_chars(*o),
{
    match o {
        Some(s) => Some(s.clone()),
        None => None,
    }
}

/// The public view of a user.
pub fn public_user(row: &UserRow) -> (r: PublicUser)
    ensures
        r.id@ == row.id@,
        r.email@ == row.email@,
        r.username@ == row.username@,
        r.created_at@ == row.created_at@,
        r.avatar_seed@ == public_seed(*row),
        r.avatar_url@ == avatar_path(row.id@, public_seed(*row)),
{
    let seed = match &row.avatar_seed {
        Some(s) => s.clone(),
        None => row.id.clone(),
    };
    let url = avatar_path_of(row.id.as_str(), seed.as_str());
    PublicUser {
        id: row.id.clone(),
        email: row.email.clone(),
        username: row.username.clone(),
        created_at: row.created_at.clone(),
        avatar_seed: seed,
        avatar_url: url,
    }
}

/// The public view of an application.
pub fn public_app(row: &AppRow) -> (r: PublicApp)
    ensures
        r.id@ == row.id@,
        r.app_id@ == row.app_id@,
        r.name@ == row.name@,
        r.description@ == row.description@,
        r.status@ == row.status@,
        r.redirect_uris.deep_view() == spec_parse_redirect_uris(Some(row.redirect_uris@)),
        opt_chars(r.icon_url) == spec_normalize_icon_url(opt_chars(row.icon_url)),
        r.icon_path@ == icon_path(row.app_id@),
        r.created_at@ == row.created_at@,
        r.updated_at@ == row.updated_at@,
        opt_chars(r.secret_rotated_at) == opt_chars(row.secret_rotated_at),
{
    let icon = match &row.icon_url {
        Some(u) => normalize_icon_url(Some(u.as_str())),
        None => normalize_icon_url(None),
    };
    PublicApp {
        id: row.id.clone(),
        app_id: row.app_id.clone(),
        name: row.name.clone(),
        description: row.description.clone(),
        status: row.status.clone(),
        redirect_uris: parse_redirect_uris(Some(row.redirect_uris.as_str())),
        icon_url: icon,
        icon_path: icon_path_of(row.app_id.as_str()),
        created_at: row.created_at.clone(),
        updated_at: row.updated_at.clone(),
        secret_rotated_at: clone_opt(&row.secret_rotated_at),
    }
}

/// Whether two texts are equal.
pub fn str_eq(a: &str, b: &str) -> (r: bool)
    ensures
        r == (a@ == b@),
{
    let x = chars_of(a);
    let y = chars_of(b);
    chars_eq(x.as_slice(), y.as_slice())
}

/// The user that the lookup by id found, or 404.
pub fn load_user(found: Option<UserRow>) -> (r: Result<UserRow, ApiError>)
    ensures
        found matches Some(u) ==> r == Ok::<UserRow, ApiError>(u),
        found is None ==> (r matches Err(e) && e.status == 404 && e.code@ == "not_found"@
            && e.message@ == "User not found"@),
{
    match found {
        Some(u) => Ok(u),
        None => Err(api_err(404, "not_found", String::from_str("User not found"))),
    }
}

/// The application that the lookup by id found, or 404.
pub fn load_app(found: Option<AppRow>) -> (r: Result<AppRow, ApiError>)
    ensures
        found matches Some(a) ==> r == Ok::<AppRow, ApiError>(a),
        found is None ==> (r matches Err(e) && e.status == 404 && e.code@ == "not_found"@
            && e.message@ == "App not found"@),
{
    match found {
        Some(a) => Ok(a),
        None => Err(api_err(404, "not_found", String::from_str("App not found"))),
    }
}

/// The application, if the lookup found it and `owner_id` owns it; a missing
/// application and another owner's application both give the same 404, so
/// that existence does not leak.
pub fn load_owned_app(found: Option<AppRow>, owner_id: &str) -> (r: Result<AppRow, ApiError>)
    ensures
        r matches Ok(a) ==> found == Some(a) && a.owner_id@ == owner_id@,
        r is Ok <==> (found matches Some(a) && a.owner_id@ == owner_id@),
        r matches Err(e) ==> e.status == 404 && e.code@ == "not_found"@ && e.message@
            == "App not found"@,
{
    let app = load_app(found)?;
    if !str_eq(app.owner_id.as_str(), owner_id) {
        return Err(api_err(404, "not_found", String::from_str("App not found")));
    }
    Ok(app)
}

} // verus!
