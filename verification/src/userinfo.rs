//! What other applications may read of a user: the token's application
//! binding and the profile they are shown.

use vstd::prelude::*;

use crate::db::{avatar_path, avatar_path_of, str_eq, AppRow, UserRow};
use crate::http::{api_err, is_err, ApiError};
use crate::text::{chars_of, push_str, string_of, trim, trim_chars};
use crate::validate::bad_app_credentials;

verus! {

/// `GET /userinfo` when the request sent application credentials, once they
/// are checked: the token must have been issued for that application
/// (403 otherwise); credentials that named no application are refused.
pub fn userinfo_app_check(token_app_id: &Option<String>, app: Option<AppRow>) -> (r: Result<
    (),
    ApiError,
>)
    ensures
        r is Ok <==> (app matches Some(a) && (token_app_id matches Some(t) && t@ == a.app_id@)),
        app is None ==> (r matches Err(e) && bad_app_credentials(e)),
        app is Some && r is Err ==> (r matches Err(e) && is_err(e, 403, "token_app_mismatch"@)
            && e.message@ == "Token was not issued for this application"@),
{
    match app {
        Some(a) => {
            let bound = match token_app_id {
                Some(t) => str_eq(t.as_str(), a.app_id.as_str()),
                None => false,
            };
            if !bound {
                return Err(
                    api_err(
                        403,
                        "token_app_mismatch",
                        String::from_str("Token was not issued for this application"),
                    ),
                );
            }
            Ok(())
        },
        None => Err(
            api_err(401, "invalid_app_credentials", String::from_str("Invalid app credentials")),
        ),
    }
}

/// A user as other applications see them.
#[derive(Debug)]
pub struct UserInfo {
    pub sub: String,
    pub id: String,
    pub email: String,
    pub username: String,
    pub avatar_seed: String,
    pub avatar_url: String,
    pub avatar_path: String,
    pub created_at: String,
}

/// The stored avatar seed when it is set and not empty, else the user id.
pub open spec fn info_seed(user: UserRow) -> Seq<char> {
    match user.avatar_seed {
        Some(s) => if s@.len() > 0 {
            s@
        } else {
            user.id@
        },
        None => user.id@,
    }
}

/// The profile shown to applications; the avatar URL is absolute under
/// the service's base URL `base`.
pub fn userinfo_payload(base: &str, user: &UserRow) -> (r: UserInfo)
    ensures
        r.sub@ == user.id@,
        r.id@ == user.id@,
        r.email@ == user.email@,
        r.username@ == user.username@,
        r.avatar_seed@ == info_seed(*user),
        r.avatar_path@ == avatar_path(user.id@, info_seed(*user)),
        r.avatar_url@ == base@ + avatar_path(user.id@, info_seed(*user)),
        r.created_at@ == user.created_at@,
{
    let seed = match &user.avatar_seed {
        Some(s) => {
            if s.as_str().is_empty() {
                user.id.clone()
            } else {
                s.clone()
            }
        },
        None => user.id.clone(),
    };
    let path = avatar_path_of(user.id.as_str(), seed.as_str());
    let mut url: Vec<char> = Vec::new();
    push_str(&mut url, base);
    push_str(&mut url, path.as_str());
    UserInfo {
        sub: user.id.clone(),
        id: user.id.clone(),
        email: user.email.clone(),
        username: user.username.clone(),
        avatar_seed: seed,
        avatar_url: string_of(&url),
        avatar_path: path,
        created_at: user.created_at.clone(),
    }
}

/// The user id of `GET /v1/users/:id`, trimmed; 400 when empty.
pub fn profile_user_id(raw: &str) -> (r: Result<String, ApiError>)
    ensures
        trim(raw@).len() == 0 ==> (r matches Err(e) && is_err(e, 400, "invalid_request"@)
            && e.message@ == "user id is required"@),
        trim(raw@).len() > 0 ==> (r matches Ok(s) && s@ == trim(raw@)),
{
    let t = trim_chars(chars_of(raw).as_slice());
    if t.len() == 0 {
        return Err(api_err(400, "invalid_request", String::from_str("user id is required")));
    }
    Ok(string_of(&t))
}

} // verus!
