//! Sessions: issuing a token with the record that backs it, and checking the
//! bearer token of a request against its session.

use vstd::prelude::*;
use vstd::utf8::encode_utf8;

use crate::db::{load_user, SessionRow, UserRow};
use crate::decimal::{fmt_int, lemma_digits_of_len, pow10};
use crate::http::{api_err, is_err, ApiError};
use crate::password::{
    accepted_when, hmac_sha256_b64url, jwt_payload, lemma_uuid_plain,
    plain_json_text, sign_token_at, sign_token_fits, spec_b64url, spec_hmac_sha256,
    spec_sign_token, spec_uuid, spec_verify_token, token_issued, token_signature_ok, uuid_v4,
    verify_token_at,
};
use crate::text::{chars_of, has_prefix, string_of, sub_chars, trim, trim_chars};
use crate::time::{
    format_unix_iso, iso_fits, max_now, now_ts, parse_iso_pub, spec_format_unix_iso, spec_parse_iso,
};

verus! {

/// A new session: the record to store and the token to hand out.
#[derive(Debug)]
pub struct NewSession {
    pub sid: String,
    pub token: String,
    pub token_hash: String,
    pub expires_at: String,
}

/// `s` is the session that `create_session` issues under `secret` for
/// `ttl` seconds at Unix time `now`.
pub open spec fn session_issued(s: NewSession, secret: Seq<char>, ttl: int, now: int) -> bool {
    &&& exists|b: Seq<u8>| b.len() == 16 && s.sid@ == spec_uuid(b)
    &&& s.token@ == spec_sign_token(secret, s.sid@, ttl, now)
    &&& s.token_hash@ == spec_b64url(spec_hmac_sha256(secret, s.token@))
    &&& s.expires_at@ == spec_format_unix_iso(now + ttl)
    &&& token_signature_ok(secret, s.token@)
    &&& token_issued(secret, s.token@, s.sid@, ttl, now)
    &&& plain_json_text(s.sid@)
}

proof fn lemma_encode_len(s: Seq<char>)
    ensures
        encode_utf8(s).len() <= 4 * s.len(),
    decreases s.len(),
{
    if s.len() > 0 {
        lemma_encode_len(s.drop_first());
    }
}

proof fn lemma_fmt_int_len(v: int)
    requires
        i64::MIN <= v <= i64::MAX,
    ensures
        fmt_int(v).len() <= 20,
{
    assert(pow10(19) == 10000000000000000000nat) by {
        reveal_with_fuel(pow10, 20);
    }
    if v < 0 {
        lemma_digits_of_len((-v) as nat, 19);
    } else {
        lemma_digits_of_len(v as nat, 19);
    }
}

/// The token of a session id of 36 characters can always be encoded.
proof fn lemma_session_token_fits(sid: Seq<char>, ttl: int, now: int)
    requires
        sid.len() == 36,
        i64::MIN <= now <= i64::MAX,
        i64::MIN <= now + ttl <= i64::MAX,
    ensures
        sign_token_fits(sid, ttl, now),
{
    reveal_strlit("{\"sid\":\"");
    reveal_strlit("\",\"iat\":");
    reveal_strlit(",\"exp\":");
    reveal_strlit("}");
    lemma_fmt_int_len(now);
    lemma_fmt_int_len(now + ttl);
    let p = jwt_payload(sid, now, now + ttl);
    assert(p.len() <= 101);
    lemma_encode_len(p);
}

/// A session for `ttl` seconds from Unix time `now`: a random id, the token
/// signed under `secret`, the token's keyed hash (the stored form) and the
/// expiry to store.
pub fn create_session_at(secret: &str, ttl: i64, now: i64) -> (r: NewSession)
    requires
        i64::MIN <= now + ttl <= i64::MAX,
    ensures
        session_issued(r, secret@, ttl as int, now as int),
{
    let sid = uuid_v4();
    proof {
        lemma_session_token_fits(sid@, ttl as int, now as int);
    }
    let token = sign_token_at(secret, sid.as_str(), ttl, now);
    proof {
        let b = choose|b: Seq<u8>| b.len() == 16 && sid@ == spec_uuid(b);
        lemma_uuid_plain(b);
    }
    let token_hash = hmac_sha256_b64url(secret, token.as_str());
    let expires_at = format_unix_iso(now + ttl);
    NewSession { sid, token, token_hash, expires_at }
}

/// A session's token is accepted, as that session, until it expires.
pub proof fn lemma_session_token_accepted(
    s: NewSession,
    secret: Seq<char>,
    ttl: int,
    now: int,
    at: int,
)
    requires
        session_issued(s, secret, ttl, now),
        i64::MIN <= now <= i64::MAX,
        i64::MIN <= now + ttl <= i64::MAX,
        at <= now + ttl,
    ensures
        accepted_when(secret, s.token@, at, s.sid@, ttl, now),
{
}

/// A session issued at Unix time `now` for `ttl` seconds stores an expiry
/// that reads back as `now + ttl`: `check_session` keeps it live exactly up
/// to that second.
pub proof fn lemma_session_lifetime(s: NewSession, secret: Seq<char>, ttl: int, now: int, at: int)
    requires
        session_issued(s, secret, ttl, now),
        -62167219200 <= now + ttl <= i64::MAX,
    ensures
        iso_fits(s.expires_at@),
        spec_parse_iso(s.expires_at@) >= at <==> at <= now + ttl,
{
    crate::time::lemma_parse_format_roundtrip((now + ttl) as i64);
}

/// A session for `ttl` seconds from now; `None` when the expiry would not
/// fit in an `i64`.
pub fn create_session(secret: &str, ttl: i64) -> (r: Option<NewSession>)
    ensures
        exists|now: int|
            0 <= now <= max_now() && #[trigger] session_result(r, secret@, ttl as int, now),
{
    let now = now_ts();
    if ttl > 0 && now > i64::MAX - ttl {
        assert(session_result(None, secret@, ttl as int, now as int));
        return None;
    }
    let s = create_session_at(secret, ttl, now);
    let r = Some(s);
    assert(session_result(r, secret@, ttl as int, now as int));
    r
}

/// `r` is what `create_session_at` gives at `now`, or `None` where the
/// expiry `now + ttl` does not fit in an `i64`.
pub open spec fn session_result(r: Option<NewSession>, secret: Seq<char>, ttl: int, now: int) -> bool {
    if now + ttl > i64::MAX {
        r is None
    } else {
        r matches Some(s) && session_issued(s, secret, ttl, now)
    }
}

pub open spec fn unauthorized(e: ApiError, message: Seq<char>) -> bool {
    is_err(e, 401, "unauthorized"@) && e.message@ == message
}

/// The token of an `Authorization` header: what follows `Bearer ` (or
/// `bearer `), trimmed.
pub open spec fn spec_bearer(header: Seq<char>) -> Option<Seq<char>> {
    if has_prefix(header, "Bearer "@) || has_prefix(header, "bearer "@) {
        Some(trim(header.subrange(7, header.len() as int)))
    } else {
        None
    }
}

/// The bearer token of the `Authorization` header, or 401 when there is
/// none.
pub fn bearer_token(header: Option<&str>) -> (r: Result<String, ApiError>)
    ensures
        ({
            let h = match header {
                Some(h) => h@,
                None => Seq::<char>::empty(),
            };
            match spec_bearer(h) {
                Some(t) => r matches Ok(s) && s@ == t,
                None => r matches Err(e) && unauthorized(
                    e,
                    "Missing Authorization: Bearer <token>"@,
                ),
            }
        }),
{
    let h = match header {
        Some(h) => chars_of(h),
        None => Vec::new(),
    };
    let upper = chars_of("Bearer ");
    let lower = chars_of("bearer ");
    proof {
        reveal_strlit("Bearer ");
        reveal_strlit("bearer ");
    }
    let mut matched = false;
    if h.len() >= 7 {
        let head = sub_chars(h.as_slice(), 0, 7);
        matched = crate::text::chars_eq(head.as_slice(), upper.as_slice())
            || crate::text::chars_eq(head.as_slice(), lower.as_slice());
    }
    if !matched {
        return Err(
            api_err(
                401,
                "unauthorized",
                String::from_str("Missing Authorization: Bearer <token>"),
            ),
        );
    }
    let rest = sub_chars(h.as_slice(), 7, h.len());
    let t = trim_chars(rest.as_slice());
    Ok(string_of(&t))
}

pub open spec fn header_text(header: Option<&str>) -> Seq<char> {
    match header {
        Some(h) => h@,
        None => Seq::<char>::empty(),
    }
}

/// The session id of the request's bearer token under `secret` at Unix
/// time `now`: 401 when the header has no bearer token, or when the token's
/// signature, encoding or claims do not check out or it has expired.
pub fn authenticate_at(secret: &str, header: Option<&str>, now: i64) -> (r: Result<
    String,
    ApiError,
>)
    ensures
        ({
            let h = match header {
                Some(h) => h@,
                None => Seq::<char>::empty(),
            };
            match spec_bearer(h) {
                None => r matches Err(e) && unauthorized(
                    e,
                    "Missing Authorization: Bearer <token>"@,
                ),
                Some(t) => match spec_verify_token(secret@, t, now as int) {
                    None => r matches Err(e) && unauthorized(e, "Invalid or expired token"@),
                    Some((sid, _)) => r matches Ok(s) && s@ == sid,
                },
            }
        }),
        forall|t: Seq<char>, sid: Seq<char>, ttl: int, iat: int|
            spec_bearer(header_text(header)) == Some(t) && #[trigger] accepted_when(
                secret@,
                t,
                now as int,
                sid,
                ttl,
                iat,
            ) ==> (r matches Ok(s) && s@ == sid),
{
    let token = bearer_token(header)?;
    match verify_token_at(secret, token.as_str(), now) {
        Some((sid, _)) => Ok(sid),
        None => Err(api_err(401, "unauthorized", String::from_str("Invalid or expired token"))),
    }
}

/// `authenticate_at` at the current time.
pub fn authenticate(secret: &str, header: Option<&str>) -> (r: Result<String, ApiError>)
    ensures
        exists|now: i64|
            0 <= now <= max_now() && #[trigger] authenticate_result(secret@, header, now, r),
{
    let now = now_ts();
    let r = authenticate_at(secret, header, now);
    assert(authenticate_result(secret@, header, now, r));
    r
}

/// `r` is what `authenticate_at` answers at `now`.
pub open spec fn authenticate_result(
    secret: Seq<char>,
    header: Option<&str>,
    now: i64,
    r: Result<String, ApiError>,
) -> bool {
    let h = match header {
        Some(h) => h@,
        None => Seq::<char>::empty(),
    };
    match spec_bearer(h) {
        None => r matches Err(e) && unauthorized(e, "Missing Authorization: Bearer <token>"@),
        Some(t) => match spec_verify_token(secret, t, now as int) {
            None => r matches Err(e) && unauthorized(e, "Invalid or expired token"@),
            Some((sid, _)) => r matches Ok(s) && s@ == sid,
        },
    }
}

/// What becomes of a request whose token names a session.
#[derive(Debug)]
pub enum SessionCheck {
    /// The session is live.
    Live(SessionRow),
    /// The request is refused; when `expired_id` names a session, that
    /// session is deleted first.
    Refuse { error: ApiError, expired_id: Option<String> },
}

/// The session the token's id looked up, at Unix time `now`: a missing
/// session is revoked, one whose expiry has passed is expired (and goes).
pub fn check_session(found: Option<SessionRow>, now: i64) -> (r: SessionCheck)
    requires
        found matches Some(s) ==> iso_fits(s.expires_at@),
    ensures
        found is None ==> (r matches SessionCheck::Refuse { error, expired_id } && unauthorized(
            error,
            "Session revoked"@,
        ) && expired_id is None),
        found matches Some(s) ==> (if spec_parse_iso(s.expires_at@) < now {
            r matches SessionCheck::Refuse { error, expired_id } && unauthorized(
                error,
                "Session expired"@,
            ) && (expired_id matches Some(id) && id@ == s.id@)
        } else {
            r == SessionCheck::Live(s)
        }),
{
    let s = match found {
        Some(s) => s,
        None => {
            return SessionCheck::Refuse {
                error: api_err(401, "unauthorized", String::from_str("Session revoked")),
                expired_id: None,
            };
        },
    };
    if parse_iso_pub(s.expires_at.as_str()) < now {
        let id = s.id.clone();
        return SessionCheck::Refuse {
            error: api_err(401, "unauthorized", String::from_str("Session expired")),
            expired_id: Some(id),
        };
    }
    SessionCheck::Live(s)
}

/// Who a request acts for: the user, the session, and the application the
/// session was issued for (if any).
#[derive(Debug)]
pub struct AuthContext {
    pub user: UserRow,
    pub session_id: String,
    pub app_id: Option<String>,
}

/// The context of a live session once its user is looked up; 404 when the
/// user is gone.
pub fn auth_context(session: SessionRow, found_user: Option<UserRow>) -> (r: Result<
    AuthContext,
    ApiError,
>)
    ensures
        found_user matches Some(u) ==> r == Ok::<AuthContext, ApiError>(
            AuthContext { user: u, session_id: session.id, app_id: session.app_id },
        ),
        found_user is None ==> (r matches Err(e) && is_err(e, 404, "not_found"@) && e.message@
            == "User not found"@),
{
    let user = load_user(found_user)?;
    Ok(AuthContext { user, session_id: session.id, app_id: session.app_id })
}

} // verus!
