//! Registered applications: the fields of a new or changed application, its
//! credentials, and where its public icon comes from.

use vstd::prelude::*;

use crate::db::{opt_chars, str_eq, AppRow};
use crate::decimal::{digits_of, push_u64};
use crate::http::{
    api_err, body_list, body_str, body_strings, is_err, spec_body_str, str_value, ApiError,
    FieldValue, JsonBody,
};
use crate::password::{
    hash_password, random_hex, random_id, spec_hex, spec_verify_password, verify_password_defined,
};
use crate::text::{chars_of, push_str, string_of, trim, trim_chars};
use crate::validate::{
    collect_uris, normalize_icon_url, serialize_redirect_uris, spec_normalize_icon_url,
    spec_parse_redirect_uris, spec_parse_url, spec_serialize_redirect_uris, url_parses,
};

verus! {

pub open spec fn name_rule(max: int) -> Seq<char> {
    "Name is required (max "@ + digits_of(max as nat) + " chars)"@
}

pub open spec fn description_rule(max: int) -> Seq<char> {
    "Description max "@ + digits_of(max as nat) + " chars"@
}

pub open spec fn invalid_name(e: ApiError, max: int) -> bool {
    is_err(e, 400, "invalid_name"@) && e.message@ == name_rule(max)
}

fn name_error(max: usize) -> (e: ApiError)
    ensures
        invalid_name(e, max as int),
{
    let mut m: Vec<char> = Vec::new();
    push_str(&mut m, "Name is required (max ");
    push_u64(&mut m, max as u64);
    push_str(&mut m, " chars)");
    api_err(400, "invalid_name", string_of(&m))
}

fn description_error(max: usize) -> (e: ApiError)
    ensures
        is_err(e, 400, "invalid_description"@) && e.message@ == description_rule(max as int),
{
    let mut m: Vec<char> = Vec::new();
    push_str(&mut m, "Description max ");
    push_u64(&mut m, max as u64);
    push_str(&mut m, " chars");
    api_err(400, "invalid_description", string_of(&m))
}

/// The icon field of a new application: `iconUrl`, or `icon_url` when
/// there is no `iconUrl` field, if it is a string.
pub open spec fn create_icon_field(body: JsonBody) -> Option<Seq<char>> {
    match body.get("iconUrl"@) {
        Some(v) => str_value(v),
        None => body.get_str("icon_url"@),
    }
}

pub open spec fn or_no_items(l: Option<Seq<Seq<char>>>) -> Seq<Seq<char>> {
    match l {
        Some(l) => l,
        None => Seq::<Seq<char>>::empty(),
    }
}

/// A new application's fields, checked.
#[derive(Debug)]
pub struct AppDraft {
    pub name: String,
    pub description: String,
    pub redirect_uris: Vec<String>,
    pub icon_url: Option<String>,
}

/// Reads and checks the body of `POST /apps`: a name of 1 to `name_max`
/// characters, a description of at most `desc_max`, the string items of
/// `redirectUris`, and the icon URL where it is one.
pub fn create_app_request(body: &JsonBody, name_max: usize, desc_max: usize) -> (r: Result<
    AppDraft,
    ApiError,
>)
    requires
        body.wf(),
    ensures
        ({
            let name = spec_body_str(*body, seq!["name"]);
            let description = spec_body_str(*body, seq!["description"]);
            if name.len() == 0 || name.len() > name_max {
                r matches Err(e) && invalid_name(e, name_max as int)
            } else if description.len() > desc_max {
                r matches Err(e) && is_err(e, 400, "invalid_description"@) && e.message@
                    == description_rule(desc_max as int)
            } else {
                r matches Ok(d) && d.name@ == name && d.description@ == description
                    && d.redirect_uris.deep_view() == or_no_items(
                    crate::http::body_list(*body, "redirectUris"@),
                ) && opt_chars(d.icon_url) == spec_normalize_icon_url(create_icon_field(*body))
            }
        }),
{
    let name_keys: [&str; 1] = ["name"];
    let desc_keys: [&str; 1] = ["description"];
    assert(name_keys@ =~= seq!["name"]);
    assert(desc_keys@ =~= seq!["description"]);
    let name = body_str(body, &name_keys);
    let description = body_str(body, &desc_keys);
    let redirect_uris = match body_strings(body, "redirectUris") {
        Some(v) => v,
        None => Vec::new(),
    };
    let icon_raw: Option<String> = match body.find("iconUrl") {
        Some(i) => match &body.fields[i].1 {
            FieldValue::Str(s) => Some(s.clone()),
            _ => None,
        },
        None => body.get_string("icon_url"),
    };
    let icon_url = match &icon_raw {
        Some(s) => normalize_icon_url(Some(s.as_str())),
        None => normalize_icon_url(None),
    };
    let name_len = chars_of(name.as_str()).len();
    if name_len == 0 || name_len > name_max {
        return Err(name_error(name_max));
    }
    if chars_of(description.as_str()).len() > desc_max {
        return Err(description_error(desc_max));
    }
    proof {
        assert(redirect_uris.deep_view() == or_no_items(body_list(*body, "redirectUris"@)));
    }
    Ok(AppDraft { name, description, redirect_uris, icon_url })
}

/// A secret of `sec_` and 48 hex digits of random bytes.
pub open spec fn is_app_secret(s: Seq<char>) -> bool {
    exists|b: Seq<u8>| b.len() == 24 && s == "sec_"@ + spec_hex(b)
}

/// A fresh application secret and its stored hash with `iterations`
/// rounds; the secret checks against the hash.
pub fn new_secret(iterations: u32) -> (r: (String, String))
    ensures
        is_app_secret(r.0@),
        iterations != 0 ==> verify_password_defined(r.1@) && spec_verify_password(r.0@, r.1@),
{
    let hex = random_hex(24);
    let mut s: Vec<char> = Vec::new();
    push_str(&mut s, "sec_");
    push_str(&mut s, hex.as_str());
    let secret = string_of(&s);
    let hash = hash_password(secret.as_str(), iterations);
    (secret, hash)
}

/// The row a new application inserts, with the secret shown once.
#[derive(Debug)]
pub struct NewApp {
    pub id: String,
    pub app_id: String,
    pub secret: String,
    pub secret_hash: String,
    pub redirect_uris: String,
}

/// `n` is what `new_app` makes of the draft with `iterations` rounds.
pub open spec fn app_made(draft: AppDraft, n: NewApp, iterations: u32) -> bool {
    &&& exists|b: Seq<u8>| b.len() == 16 && n.id@ == spec_hex(b)
    &&& exists|b: Seq<u8>| b.len() == 12 && n.app_id@ == "app_"@ + spec_hex(b)
    &&& is_app_secret(n.secret@)
    &&& iterations != 0 ==> verify_password_defined(n.secret_hash@) && spec_verify_password(
        n.secret@,
        n.secret_hash@,
    )
    &&& n.redirect_uris@ == spec_serialize_redirect_uris(draft.redirect_uris.deep_view())
    &&& spec_parse_redirect_uris(Some(n.redirect_uris@)) == collect_uris(
        draft.redirect_uris.deep_view(),
    )
}

/// A new application: a random record id, a public id of `app_` and 24 hex
/// digits, a fresh secret with its hash, and the stored redirect URI list.
pub fn new_app(draft: &AppDraft, iterations: u32) -> (r: NewApp)
    ensures
        app_made(*draft, r, iterations),
{
    let id = random_id();
    let hex = random_hex(12);
    let mut a: Vec<char> = Vec::new();
    push_str(&mut a, "app_");
    push_str(&mut a, hex.as_str());
    let app_id = string_of(&a);
    let (secret, secret_hash) = new_secret(iterations);
    let redirect_uris = serialize_redirect_uris(draft.redirect_uris.as_slice());
    NewApp { id, app_id, secret, secret_hash, redirect_uris }
}

/// A new application's secret is accepted with its public id once the row
/// is stored active: `check_app_credentials` and `check_client_secret` check
/// exactly this.
pub proof fn lemma_new_app_secret_accepted(draft: AppDraft, n: NewApp, iterations: u32, row: AppRow)
    requires
        app_made(draft, n, iterations),
        iterations != 0,
        row.app_secret_hash@ == n.secret_hash@,
    ensures
        verify_password_defined(row.app_secret_hash@),
        spec_verify_password(n.secret@, row.app_secret_hash@),
{
}

/// The columns an application update writes.
#[derive(Debug)]
pub struct AppUpdate {
    pub name: String,
    pub description: String,
    pub redirect_uris: String,
    pub icon_url: Option<String>,
}

/// The icon an update leaves: cleared by `null`, replaced by a string (kept
/// only where it is an icon URL), else unchanged.
pub open spec fn updated_icon(body: JsonBody, current: Option<Seq<char>>) -> Option<Seq<char>> {
    match body.get("iconUrl"@) {
        Some(FieldValue::Null) => None,
        Some(FieldValue::Str(s)) => spec_normalize_icon_url(Some(s@)),
        _ => current,
    }
}

/// Applies the body of `PUT /apps/:id` to an application: each field given
/// replaces the stored one (`name` trimmed and of 1 to `name_max`
/// characters, `description` trimmed, `redirectUris` cleaned and stored as
/// JSON, `iconUrl` as `updated_icon` says).
pub fn update_app_fields(app: &AppRow, body: &JsonBody, name_max: usize) -> (r: Result<
    AppUpdate,
    ApiError,
>)
    requires
        body.wf(),
    ensures
        ({
            let name = match body.get_str("name"@) {
                Some(v) => trim(v),
                None => app.name@,
            };
            if body.get_str("name"@) is Some && (name.len() == 0 || name.len() > name_max) {
                r matches Err(e) && invalid_name(e, name_max as int)
            } else {
                r matches Ok(u) && u.name@ == name && u.description@ == (match body.get_str(
                    "description"@,
                ) {
                    Some(v) => trim(v),
                    None => app.description@,
                }) && u.redirect_uris@ == (match body_list(*body, "redirectUris"@) {
                    Some(l) => spec_serialize_redirect_uris(l),
                    None => app.redirect_uris@,
                }) && opt_chars(u.icon_url) == updated_icon(*body, opt_chars(app.icon_url))
            }
        }),
{
    let mut name = app.name.clone();
    match body.get_string("name") {
        Some(v) => {
            name = string_of(trim_chars(chars_of(v.as_str()).as_slice()).as_slice());
            let n = chars_of(name.as_str()).len();
            if n == 0 || n > name_max {
                return Err(name_error(name_max));
            }
        },
        None => {},
    }
    let description = match body.get_string("description") {
        Some(v) => string_of(trim_chars(chars_of(v.as_str()).as_slice()).as_slice()),
        None => app.description.clone(),
    };
    let redirect_uris = match body_strings(body, "redirectUris") {
        Some(list) => serialize_redirect_uris(list.as_slice()),
        None => app.redirect_uris.clone(),
    };
    let icon_url = match body.find("iconUrl") {
        Some(i) => match &body.fields[i].1 {
            FieldValue::Null => None,
            FieldValue::Str(s) => normalize_icon_url(Some(s.as_str())),
            _ => app.icon_url.clone(),
        },
        None => app.icon_url.clone(),
    };
    Ok(AppUpdate { name, description, redirect_uris, icon_url })
}

/// 400 `app_revoked` unless the application is active (rotating a secret,
/// uploading an icon).
pub fn require_active(app: &AppRow) -> (r: Result<(), ApiError>)
    ensures
        r is Ok <==> app.status@ == "active"@,
        r matches Err(e) ==> is_err(e, 400, "app_revoked"@) && e.message@ == "App is revoked"@,
{
    if !str_eq(app.status.as_str(), "active") {
        return Err(api_err(400, "app_revoked", String::from_str("App is revoked")));
    }
    Ok(())
}

/// Revoking writes only when the application is not revoked yet.
pub fn revoke_needed(app: &AppRow) -> (r: bool)
    ensures
        r == (app.status@ != "revoked"@),
{
    !str_eq(app.status.as_str(), "revoked")
}

/// A stored object key, when one is set (not empty).
pub fn stored_key(key: &Option<String>) -> (r: Option<String>)
    ensures
        match *key {
            Some(k) => if k@.len() > 0 {
                r matches Some(x) && x@ == k@
            } else {
                r is None
            },
            None => r is None,
        },
{
    match key {
        Some(k) => {
            if k.as_str().is_empty() {
                None
            } else {
                Some(k.clone())
            }
        },
        None => None,
    }
}

/// A public icon or avatar once no stored image answered.
#[derive(Debug)]
pub enum ImageReply {
    /// A `302` to an external image.
    Redirect(String),
    /// The identicon of `seed`, `size` pixels, cached for `max_age` seconds.
    Identicon { seed: String, size: u32, max_age: u32 },
}

/// An application's icon when it has no stored image: its custom icon URL
/// (400 `invalid_icon` when that does not parse as a URL), else the
/// identicon of its public id.
pub fn app_icon_fallback(app: &AppRow) -> (r: Result<ImageReply, ApiError>)
    ensures
        match spec_normalize_icon_url(opt_chars(app.icon_url)) {
            Some(u) => if spec_parse_url(u) is Some {
                r matches Ok(ImageReply::Redirect(x)) && x@ == u
            } else {
                r matches Err(e) && is_err(e, 400, "invalid_icon"@) && e.message@
                    == "Bad icon URL"@
            },
            None => r matches Ok(ImageReply::Identicon { seed, size, max_age }) && seed@
                == app.app_id@ && size == 128 && max_age == 3600,
        },
{
    let custom = match &app.icon_url {
        Some(u) => normalize_icon_url(Some(u.as_str())),
        None => normalize_icon_url(None),
    };
    match custom {
        Some(u) => {
            if url_parses(u.as_str()) {
                Ok(ImageReply::Redirect(u))
            } else {
                Err(api_err(400, "invalid_icon", String::from_str("Bad icon URL")))
            }
        },
        None => Ok(ImageReply::Identicon { seed: app.app_id.clone(), size: 128, max_age: 3600 }),
    }
}

} // verus!
