//! Registration, login and profile changes: the checks and decisions between
//! the database lookups that the service makes.

use vstd::prelude::*;

use crate::avatar::generate_avatar_seed;
use crate::db::{str_eq, UserRow};
use crate::decimal::{digits_of, push_u64};
use crate::http::{api_err, is_err, ApiError};
use crate::password::{
    hash_password, password_check_defined, random_id, spec_hex, spec_verify_password,
    verify_password, verify_password_defined,
};
use crate::text::{chars_of, push_str, spec_to_lowercase, string_of, to_lowercase, trim, trim_chars};
use crate::validate::{email_valid, spec_email_valid, spec_username_valid, username_valid};

verus! {

/// Registration is switched off: 403.
pub fn registration_open(allow: bool) -> (r: Result<(), ApiError>)
    ensures
        r is Ok <==> allow,
        r matches Err(e) ==> is_err(e, 403, "registration_disabled"@) && e.message@
            == "Registration is disabled"@,
{
    if !allow {
        return Err(api_err(403, "registration_disabled", String::from_str("Registration is disabled")));
    }
    Ok(())
}

pub open spec fn username_rule(min: int, max: int) -> Seq<char> {
    "Username must be "@ + digits_of(min as nat) + "-"@ + digits_of(max as nat)
        + " chars of letters, numbers, underscore"@
}

pub open spec fn password_rule(min: int) -> Seq<char> {
    "Password must be at least "@ + digits_of(min as nat) + " characters"@
}

pub open spec fn invalid_email(e: ApiError) -> bool {
    is_err(e, 400, "invalid_email"@) && e.message@ == "Email is invalid"@
}

pub open spec fn invalid_username(e: ApiError, min: int, max: int) -> bool {
    is_err(e, 400, "invalid_username"@) && e.message@ == username_rule(min, max)
}

pub open spec fn weak_password(e: ApiError, min: int) -> bool {
    is_err(e, 400, "weak_password"@) && e.message@ == password_rule(min)
}

fn username_error(min: usize, max: usize) -> (e: ApiError)
    ensures
        invalid_username(e, min as int, max as int),
{
    let mut m: Vec<char> = Vec::new();
    push_str(&mut m, "Username must be ");
    push_u64(&mut m, min as u64);
    push_str(&mut m, "-");
    push_u64(&mut m, max as u64);
    push_str(&mut m, " chars of letters, numbers, underscore");
    api_err(400, "invalid_username", string_of(&m))
}

fn weak_password_error(min: usize) -> (e: ApiError)
    ensures
        weak_password(e, min as int),
{
    let mut m: Vec<char> = Vec::new();
    push_str(&mut m, "Password must be at least ");
    push_u64(&mut m, min as u64);
    push_str(&mut m, " characters");
    api_err(400, "weak_password", string_of(&m))
}

/// A registration whose fields passed the checks.
#[derive(Debug)]
pub struct Registration {
    pub email: String,
    pub username: String,
    pub password: String,
}

/// Checks a registration: the lower-cased email, then the username against
/// the configured bounds, then the password's length in characters.
pub fn register_request(
    email: &str,
    username: &str,
    password: &str,
    umin: usize,
    umax: usize,
    pwmin: usize,
) -> (r: Result<Registration, ApiError>)
    ensures
        ({
            let e = spec_to_lowercase(email@);
            if !spec_email_valid(e) {
                r matches Err(err) && invalid_email(err)
            } else if !spec_username_valid(username@, umin as int, umax as int) {
                r matches Err(err) && invalid_username(err, umin as int, umax as int)
            } else if password@.len() < pwmin {
                r matches Err(err) && weak_password(err, pwmin as int)
            } else {
                r matches Ok(reg) && reg.email@ == e && reg.username@ == username@ && reg.password@
                    == password@
            }
        }),
{
    let e = to_lowercase(email);
    if !email_valid(e.as_str()) {
        return Err(api_err(400, "invalid_email", String::from_str("Email is invalid")));
    }
    if !username_valid(username, umin, umax) {
        return Err(username_error(umin, umax));
    }
    if chars_of(password).len() < pwmin {
        return Err(weak_password_error(pwmin));
    }
    Ok(
        Registration {
            email: e,
            username: String::from_str(username),
            password: String::from_str(password),
        },
    )
}

/// 409 when a user with the email or the username exists.
pub fn register_conflict(exists: bool) -> (r: Result<(), ApiError>)
    ensures
        r is Ok <==> !exists,
        r matches Err(e) ==> is_err(e, 409, "conflict"@) && e.message@
            == "Email or username already taken"@,
{
    if exists {
        return Err(
            api_err(409, "conflict", String::from_str("Email or username already taken")),
        );
    }
    Ok(())
}

/// The row a registration inserts.
#[derive(Debug)]
pub struct NewUser {
    pub id: String,
    pub email: String,
    pub username: String,
    pub password_hash: String,
    pub avatar_seed: String,
}

/// `u` is a row that `new_user` makes of the registration with
/// `iterations` rounds.
pub open spec fn user_made(reg: Registration, u: NewUser, iterations: u32) -> bool {
    &&& exists|b: Seq<u8>| b.len() == 16 && u.id@ == spec_hex(b)
    &&& u.email@ == reg.email@
    &&& u.username@ == reg.username@
    &&& iterations != 0 ==> verify_password_defined(u.password_hash@) && spec_verify_password(
        reg.password@,
        u.password_hash@,
    )
    &&& exists|b: Seq<u8>| b.len() == 8 && u.avatar_seed@ == spec_hex(b)
}

/// A new user: a random id, the password hashed with `iterations` rounds
/// (it checks against that password), and a random avatar seed.
pub fn new_user(reg: &Registration, iterations: u32) -> (r: NewUser)
    ensures
        user_made(*reg, r, iterations),
{
    let id = random_id();
    let password_hash = hash_password(reg.password.as_str(), iterations);
    let avatar_seed = generate_avatar_seed();
    NewUser {
        id,
        email: reg.email.clone(),
        username: reg.username.clone(),
        password_hash,
        avatar_seed,
    }
}

/// A login's lower-cased email and its password, both non-empty.
pub fn login_request(email: &str, password: &str) -> (r: Result<(String, String), ApiError>)
    ensures
        ({
            let e = spec_to_lowercase(email@);
            if e.len() == 0 || password@.len() == 0 {
                r matches Err(err) && is_err(err, 400, "invalid_credentials"@) && err.message@
                    == "Email and password are required"@
            } else {
                r matches Ok((le, p)) && le@ == e && p@ == password@
            }
        }),
{
    let e = to_lowercase(email);
    if e.as_str().is_empty() || password.is_empty() {
        return Err(
            api_err(400, "invalid_credentials", String::from_str("Email and password are required")),
        );
    }
    Ok((e, String::from_str(password)))
}

/// Checked in place of a stored hash when no user has the email, so that a
/// login takes as long whether or not the user exists.
pub const DUMMY_HASH: &'static str = "pbkdf2$100000$00000000000000000000000000000000$0000000000000000000000000000000000000000000000000000000000000000";

pub open spec fn bad_login(e: ApiError) -> bool {
    is_err(e, 401, "invalid_credentials"@) && e.message@ == "Invalid email or password"@
}

/// The user a login with `password` logs in as, given the lookup by email.
/// An unknown email and a wrong password get the same answer.
pub fn login_user(found: Option<UserRow>, password: &str) -> (r: Result<UserRow, ApiError>)
    requires
        found matches Some(u) ==> verify_password_defined(u.password_hash@),
    ensures
        r is Ok <==> (found matches Some(u) && spec_verify_password(password@, u.password_hash@)),
        r matches Ok(u) ==> found == Some(u),
        r matches Err(e) ==> bad_login(e),
{
    let ok = match &found {
        Some(u) => verify_password(password, u.password_hash.as_str()),
        None => {
            if password_check_defined(DUMMY_HASH) {
                verify_password(password, DUMMY_HASH)
            } else {
                false
            }
        },
    };
    let user = match found {
        Some(u) => u,
        None => {
            return Err(
                api_err(401, "invalid_credentials", String::from_str("Invalid email or password")),
            );
        },
    };
    if !ok {
        return Err(
            api_err(401, "invalid_credentials", String::from_str("Invalid email or password")),
        );
    }
    Ok(user)
}

/// A registered user logs in with the password they registered with: the
/// row registration stores is found by the login's email and
/// `login_user` accepts the password.
pub proof fn lemma_registered_user_logs_in(
    reg: Registration,
    u: NewUser,
    iterations: u32,
    row: UserRow,
)
    requires
        user_made(reg, u, iterations),
        iterations != 0,
        row.password_hash@ == u.password_hash@,
    ensures
        verify_password_defined(row.password_hash@),
        spec_verify_password(reg.password@, row.password_hash@),
{
}

/// The email a profile update asks for: `None` when the field is absent or
/// names the current email; otherwise the trimmed, lower-cased address,
/// which must be valid.
pub fn email_change(field: Option<&str>, current: &str) -> (r: Result<Option<String>, ApiError>)
    ensures
        match field {
            None => r == Ok::<Option<String>, ApiError>(None),
            Some(f) => {
                let e = spec_to_lowercase(trim(f@));
                if !spec_email_valid(e) {
                    r matches Err(err) && invalid_email(err)
                } else if e == current@ {
                    r == Ok::<Option<String>, ApiError>(None)
                } else {
                    r matches Ok(Some(n)) && n@ == e
                }
            },
        },
{
    let f = match field {
        Some(f) => f,
        None => {
            return Ok(None);
        },
    };
    let t = string_of(trim_chars(chars_of(f).as_slice()).as_slice());
    let e = to_lowercase(t.as_str());
    if !email_valid(e.as_str()) {
        return Err(api_err(400, "invalid_email", String::from_str("Email is invalid")));
    }
    if str_eq(e.as_str(), current) {
        return Ok(None);
    }
    Ok(Some(e))
}

/// The username a profile update asks for: `None` when the field is absent
/// or names the current username; otherwise the trimmed name, which must be
/// valid.
pub fn username_change(field: Option<&str>, current: &str, umin: usize, umax: usize) -> (r: Result<
    Option<String>,
    ApiError,
>)
    ensures
        match field {
            None => r == Ok::<Option<String>, ApiError>(None),
            Some(f) => {
                let n = trim(f@);
                if !spec_username_valid(n, umin as int, umax as int) {
                    r matches Err(err) && invalid_username(err, umin as int, umax as int)
                } else if n == current@ {
                    r == Ok::<Option<String>, ApiError>(None)
                } else {
                    r matches Ok(Some(x)) && x@ == n
                }
            },
        },
{
    let f = match field {
        Some(f) => f,
        None => {
            return Ok(None);
        },
    };
    let n = string_of(trim_chars(chars_of(f).as_slice()).as_slice());
    if !username_valid(n.as_str(), umin, umax) {
        return Err(username_error(umin, umax));
    }
    if str_eq(n.as_str(), current) {
        return Ok(None);
    }
    Ok(Some(n))
}

/// A requested change stands unless another user already has the value.
pub fn claim(candidate: Option<String>, taken: bool, message: &'static str) -> (r: Result<
    Option<String>,
    ApiError,
>)
    ensures
        candidate is Some && taken ==> (r matches Err(e) && is_err(e, 409, "conflict"@)
            && e.message@ == message@),
        !(candidate is Some && taken) ==> r == Ok::<Option<String>, ApiError>(candidate),
{
    if candidate.is_some() && taken {
        return Err(api_err(409, "conflict", String::from_str(message)));
    }
    Ok(candidate)
}

/// The new password hash a profile update asks for: `None` when no new
/// password (or an empty one) is given; otherwise the current password must
/// check against the stored hash and the new one must be long enough.
pub fn password_change(
    new_password: Option<&str>,
    current_password: Option<&str>,
    stored_hash: &str,
    pwmin: usize,
    iterations: u32,
) -> (r: Result<Option<String>, ApiError>)
    requires
        (new_password matches Some(p) && p@.len() > 0) ==> verify_password_defined(stored_hash@),
    ensures
        ({
            let cur = match current_password {
                Some(c) => c@,
                None => Seq::<char>::empty(),
            };
            match new_password {
                None => r == Ok::<Option<String>, ApiError>(None),
                Some(p) => if p@.len() == 0 {
                    r == Ok::<Option<String>, ApiError>(None)
                } else if !spec_verify_password(cur, stored_hash@) {
                    r matches Err(e) && is_err(e, 401, "invalid_credentials"@) && e.message@
                        == "Current password is incorrect"@
                } else if p@.len() < pwmin {
                    r matches Err(e) && weak_password(e, pwmin as int)
                } else {
                    r matches Ok(Some(h)) && (iterations != 0 ==> verify_password_defined(h@)
                        && spec_verify_password(p@, h@))
                },
            }
        }),
{
    let p = match new_password {
        Some(p) => p,
        None => {
            return Ok(None);
        },
    };
    if p.is_empty() {
        return Ok(None);
    }
    let cur: &str = match current_password {
        Some(c) => c,
        None => "",
    };
    proof {
        reveal_strlit("");
    }
    assert(cur@ == match current_password {
        Some(c) => c@,
        None => Seq::<char>::empty(),
    });
    if !verify_password(cur, stored_hash) {
        return Err(
            api_err(401, "invalid_credentials", String::from_str("Current password is incorrect")),
        );
    }
    if chars_of(p).len() < pwmin {
        return Err(weak_password_error(pwmin));
    }
    Ok(Some(hash_password(p, iterations)))
}

/// The columns a profile update writes, and whether anything changed.
#[derive(Debug)]
pub struct UserUpdate {
    pub email: String,
    pub username: String,
    pub password_hash: String,
    pub changed: bool,
}

pub open spec fn or_current(o: Option<String>, current: Seq<char>) -> Seq<char> {
    match o {
        Some(v) => v@,
        None => current,
    }
}

/// Each column takes its new value where one was asked for, else keeps the
/// user's; something changed when any new value was asked for.
pub fn user_update(
    user: &UserRow,
    email: Option<String>,
    username: Option<String>,
    password_hash: Option<String>,
) -> (r: UserUpdate)
    ensures
        r.email@ == or_current(email, user.email@),
        r.username@ == or_current(username, user.username@),
        r.password_hash@ == or_current(password_hash, user.password_hash@),
        r.changed == (email is Some || username is Some || password_hash is Some),
{
    let changed = email.is_some() || username.is_some() || password_hash.is_some();
    UserUpdate {
        email: match email {
            Some(v) => v,
            None => user.email.clone(),
        },
        username: match username {
            Some(v) => v,
            None => user.username.clone(),
        },
        password_hash: match password_hash {
            Some(v) => v,
            None => user.password_hash.clone(),
        },
        changed,
    }
}

} // verus!
