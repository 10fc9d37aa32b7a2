//! The redirect login flow: inspecting a request, completing it with a code
//! or a token, and exchanging a one-time code.

use vstd::prelude::*;
use vstd::utf8::{encode_utf8, is_ascii_chars, is_ascii_chars_encode_utf8};

use crate::db::{opt_chars, str_eq, AppRow, AuthCodeRow};
use crate::decimal::{fmt_int, push_i64};
use crate::http::{
    api_err, is_err, pct_defined, spec_url_decode, str_value, url_decode, ApiError,
    FieldValue, JsonBody,
};
use crate::password::{
    random_hex, spec_hex, spec_verify_password, verify_password, verify_password_defined,
};
use crate::text::{
    chars_eq, chars_of, lemma_split_first, lower_ascii, lower_ascii_chars, push_str, split,
    split_chars, split_once, split_once_chars, string_of, trim, trim_chars,
};
use crate::time::{
    format_unix_iso, iso_fits, parse_iso_pub, spec_format_unix_iso, spec_parse_iso,
};
use crate::validate::{
    parse_redirect_uris, spec_normalize_icon_url, spec_parse_redirect_uris, spec_url_query, url_query,
};

verus! {

/// The parameters of `GET /authorize`.
#[derive(Debug)]
pub struct AuthorizeQuery {
    pub client_id: Option<String>,
    pub redirect_uri: Option<String>,
    pub state: Option<String>,
    pub response_type: Option<String>,
}

/// The decoded value of the last `key=value` pair whose decoded key is `key`.
pub open spec fn query_value(pairs: Seq<Seq<char>>, key: Seq<char>) -> Option<Seq<char>>
    decreases pairs.len(),
{
    if pairs.len() == 0 {
        None
    } else {
        match split_once(pairs.last(), '=') {
            Some((k, v)) => if spec_url_decode(k) == key {
                Some(spec_url_decode(v))
            } else {
                query_value(pairs.drop_last(), key)
            },
            None => query_value(pairs.drop_last(), key),
        }
    }
}

/// The query parameters read from the query text `q`.
pub open spec fn query_params(q: Option<Seq<char>>, key: Seq<char>) -> Option<Seq<char>> {
    match q {
        None => None,
        Some(q) => query_value(split(q, '&'), key),
    }
}

proof fn lemma_pct_defined_ascii(b: Seq<u8>, i: int)
    requires
        forall|k: int| 0 <= k < b.len() ==> #[trigger] b[k] < 128,
    ensures
        pct_defined(b, i),
    decreases b.len() - i,
{
    if 0 <= i < b.len() {
        lemma_pct_defined_ascii(b, i + 1);
        if i + 3 <= b.len() {
            lemma_pct_defined_ascii(b, i + 3);
        }
        if i + 3 < b.len() {
            assert(b[i + 3] < 128);
        }
    }
}

proof fn lemma_ascii_sub(s: Seq<char>, a: int, b: int)
    requires
        is_ascii_chars(s),
        0 <= a <= b <= s.len(),
    ensures
        is_ascii_chars(s.subrange(a, b)),
{
    assert forall|i: int| 0 <= i < s.subrange(a, b).len() implies '\0' <= #[trigger] s.subrange(
        a,
        b,
    )[i] <= '\u{7f}' by {
        assert(s.subrange(a, b)[i] == s[a + i]);
    }
}

proof fn lemma_ascii_decodable(s: Seq<char>)
    requires
        is_ascii_chars(s),
    ensures
        pct_defined(encode_utf8(s), 0),
{
    is_ascii_chars_encode_utf8(s);
    let b = encode_utf8(s);
    assert forall|k: int| 0 <= k < b.len() implies #[trigger] b[k] < 128 by {
        assert(s[k] as u8 == b[k]);
    }
    lemma_pct_defined_ascii(b, 0);
}

/// The decoded value of the last query parameter of `url` whose decoded
/// name is `key`.
pub fn query_param(url: &str, key: &str) -> (r: Option<String>)
    ensures
        opt_chars(r) == query_params(spec_url_query(url@), key@),
{
    let q = match url_query(url) {
        Some(q) => q,
        None => {
            return None;
        },
    };
    let qc = chars_of(q.as_str());
    let pairs = split_chars(qc.as_slice(), '&');
    let want = chars_of(key);
    let ghost ps = pairs.deep_view();
    let mut found: Option<String> = None;
    let mut i: usize = 0;
    while i < pairs.len()
        invariant
            i <= pairs@.len(),
            ps == pairs.deep_view(),
            ps == split(q@, '&'),
            is_ascii_chars(q@),
            want@ == key@,
            opt_chars(found) == query_value(ps.take(i as int), key@),
        decreases pairs@.len() - i,
    {
        assert(ps.take(i as int + 1).drop_last() =~= ps.take(i as int));
        assert(ps[i as int] =~= pairs[i as int]@);
        proof {
            lemma_piece_ascii(q@, '&', i as int);
        }
        match split_once_chars(&pairs[i], '=') {
            Some((k, v)) => {
                proof {
                    let p = pairs[i as int]@;
                    lemma_split_first(p, '=');
                    lemma_ascii_sub(p, 0, k@.len() as int);
                    lemma_ascii_sub(p, k@.len() as int + 1, p.len() as int);
                    assert(k@ =~= p.subrange(0, k@.len() as int));
                    lemma_ascii_decodable(k@);
                    lemma_ascii_decodable(v@);
                }
                let ks = string_of(&k);
                let vs = string_of(&v);
                let name = url_decode(ks.as_str());
                if chars_eq(chars_of(name.as_str()).as_slice(), want.as_slice()) {
                    found = Some(url_decode(vs.as_str()));
                }
            },
            None => {},
        }
        i = i + 1;
    }
    assert(ps.take(ps.len() as int) =~= ps);
    found
}

/// Parameters of a URL's query (`app_id` standing in for a missing
/// `client_id`).
pub fn query_from_url(url: &str) -> (r: AuthorizeQuery)
    ensures
        ({
            let q = spec_url_query(url@);
            &&& opt_chars(r.client_id) == (if query_params(q, "client_id"@) is Some {
                query_params(q, "client_id"@)
            } else {
                query_params(q, "app_id"@)
            })
            &&& opt_chars(r.redirect_uri) == query_params(q, "redirect_uri"@)
            &&& opt_chars(r.state) == query_params(q, "state"@)
            &&& opt_chars(r.response_type) == query_params(q, "response_type"@)
        }),
{
    let client_id = match query_param(url, "client_id") {
        Some(c) => Some(c),
        None => query_param(url, "app_id"),
    };
    AuthorizeQuery {
        client_id,
        redirect_uri: query_param(url, "redirect_uri"),
        state: query_param(url, "state"),
        response_type: query_param(url, "response_type"),
    }
}

/// Each piece of an ASCII text is ASCII.
proof fn lemma_piece_ascii(s: Seq<char>, sep: char, i: int)
    requires
        is_ascii_chars(s),
        0 <= i < split(s, sep).len(),
    ensures
        is_ascii_chars(split(s, sep)[i]),
    decreases s.len(),
{
    if s.len() > 0 {
        let t = s.drop_last();
        lemma_ascii_sub(s, 0, s.len() - 1);
        assert(t =~= s.subrange(0, s.len() - 1));
        crate::text::lemma_split_len(t, sep);
        let r = split(t, sep);
        if s.last() == sep {
            if i < r.len() {
                lemma_piece_ascii(t, sep, i);
            } else {
                assert(split(s, sep)[i] =~= Seq::<char>::empty());
            }
        } else {
            if i < r.len() - 1 {
                lemma_piece_ascii(t, sep, i);
            } else {
                lemma_piece_ascii(t, sep, r.len() - 1);
                assert(s[s.len() - 1] == s.last());
                assert forall|j: int| 0 <= j < split(s, sep)[i].len() implies '\0' <= #[trigger] split(s, sep)[i][j] <= '\u{7f}' by {
                    if j < r[r.len() - 1].len() {
                        assert(split(s, sep)[i][j] == r[r.len() - 1][j]);
                    } else {
                        assert(split(s, sep)[i][j] == s.last());
                    }
                }
            }
        }
    }
}

/// The text of an optional string, empty when absent.
pub open spec fn or_empty(o: Option<Seq<char>>) -> Seq<char> {
    match o {
        Some(s) => s,
        None => Seq::<char>::empty(),
    }
}

pub open spec fn opt_str(o: Option<&str>) -> Option<Seq<char>> {
    match o {
        Some(s) => Some(s@),
        None => None,
    }
}

/// Redirect URIs are compared after trimming.
pub fn normalize_uri(uri: &str) -> (r: String)
    ensures
        r@ == trim(uri@),
{
    let c = chars_of(uri);
    let t = trim_chars(c.as_slice());
    string_of(&t)
}

/// The response type asked for (`code` when none is given), compared
/// without regard to ASCII case; `None` for any other.
pub open spec fn spec_parse_rt(raw: Option<Seq<char>>) -> Option<Seq<char>> {
    let v = lower_ascii(
        match raw {
            Some(r) => r,
            None => "code"@,
        },
    );
    if v == "code"@ {
        Some("code"@)
    } else if v == "token"@ {
        Some("token"@)
    } else {
        None
    }
}

pub open spec fn rt_error(e: ApiError) -> bool {
    is_err(e, 400, "unsupported_response_type"@) && e.message@
        == "response_type must be code or token"@
}

/// `code` or `token`, or 400 `unsupported_response_type`.
pub fn parse_rt(raw: Option<&str>) -> (r: Result<String, ApiError>)
    ensures
        match spec_parse_rt(opt_str(raw)) {
            Some(v) => r matches Ok(s) && s@ == v,
            None => r matches Err(e) && rt_error(e),
        },
{
    let text: &str = match raw {
        Some(t) => t,
        None => "code",
    };
    let lower = lower_ascii_chars(chars_of(text).as_slice());
    if chars_eq(lower.as_slice(), chars_of("code").as_slice()) {
        Ok(String::from_str("code"))
    } else if chars_eq(lower.as_slice(), chars_of("token").as_slice()) {
        Ok(String::from_str("token"))
    } else {
        Err(
            api_err(
                400,
                "unsupported_response_type",
                String::from_str("response_type must be code or token"),
            ),
        )
    }
}

/// Whether the lookup by client id found an active application.
pub open spec fn found_active(found: Option<AppRow>) -> bool {
    found matches Some(a) && a.status@ == "active"@
}

pub open spec fn invalid_client(e: ApiError) -> bool {
    is_err(e, 400, "invalid_client"@) && e.message@ == "Unknown or revoked client"@
}

/// The application the lookup by client id found, if it is active; a
/// missing and a revoked client get the same answer.
pub fn load_active_app(found: Option<AppRow>) -> (r: Result<AppRow, ApiError>)
    ensures
        r is Ok <==> found_active(found),
        r matches Ok(a) ==> found == Some(a),
        r matches Err(e) ==> invalid_client(e),
{
    match found {
        None => Err(api_err(400, "invalid_client", String::from_str("Unknown or revoked client"))),
        Some(app) => {
            if str_eq(app.status.as_str(), "active") {
                Ok(app)
            } else {
                Err(api_err(400, "invalid_client", String::from_str("Unknown or revoked client")))
            }
        },
    }
}

/// Whether `uri` is one of the application's registered redirect URIs.
pub open spec fn spec_redirect_allowed(app: AppRow, uri: Seq<char>) -> bool {
    spec_parse_redirect_uris(Some(app.redirect_uris@)).contains(uri)
}

pub fn redirect_allowed(app: &AppRow, redirect_uri: &str) -> (r: bool)
    ensures
        r == spec_redirect_allowed(*app, redirect_uri@),
{
    let list = parse_redirect_uris(Some(app.redirect_uris.as_str()));
    let ghost l = list.deep_view();
    let mut i: usize = 0;
    let mut found = false;
    while i < list.len() && !found
        invariant
            i <= list@.len(),
            l == list.deep_view(),
            l == spec_parse_redirect_uris(Some(app.redirect_uris@)),
            found ==> l.contains(redirect_uri@),
            !found ==> forall|k: int| 0 <= k < i ==> l[k] != redirect_uri@,
        decreases list@.len() - i,
    {
        assert(l[i as int] == list@[i as int]@);
        if str_eq(list[i].as_str(), redirect_uri) {
            found = true;
        }
        i = i + 1;
    }
    proof {
        if !found && l.contains(redirect_uri@) {
            let k = choose|k: int| 0 <= k < l.len() && l[k] == redirect_uri@;
            assert(l[k] != redirect_uri@);
        }
    }
    found
}

pub open spec fn unregistered_redirect(e: ApiError) -> bool {
    is_err(e, 400, "invalid_request"@) && e.message@
        == "redirect_uri is not registered for this app"@
}

/// The application a login may be sent back to: active, with `redirect_uri`
/// among its registered URIs.
pub fn authorized_app(found: Option<AppRow>, redirect_uri: &str) -> (r: Result<AppRow, ApiError>)
    ensures
        r matches Ok(a) ==> found == Some(a),
        r is Ok <==> (found_active(found) && spec_redirect_allowed(found->0, redirect_uri@)),
        !found_active(found) ==> (r matches Err(e) && invalid_client(e)),
        found_active(found) && !spec_redirect_allowed(found->0, redirect_uri@) ==> (r matches Err(
            e,
        ) && unregistered_redirect(e)),
{
    let app = load_active_app(found)?;
    if !redirect_allowed(&app, redirect_uri) {
        return Err(
            api_err(
                400,
                "invalid_request",
                String::from_str("redirect_uri is not registered for this app"),
            ),
        );
    }
    Ok(app)
}

/// A `GET /authorize` request whose parameters are present and valid.
#[derive(Debug)]
pub struct InspectRequest {
    pub client_id: String,
    pub redirect_uri: String,
    pub state: String,
    pub response_type: String,
}

pub open spec fn missing(e: ApiError, message: Seq<char>) -> bool {
    is_err(e, 400, "invalid_request"@) && e.message@ == message
}

/// Checks the parameters of `GET /authorize`, in the order the service
/// reports them: client id, redirect URI, response type.
pub fn inspect_request(query: &AuthorizeQuery) -> (r: Result<InspectRequest, ApiError>)
    ensures
        ({
            let client_id = trim(or_empty(opt_chars(query.client_id)));
            let redirect_uri = trim(or_empty(opt_chars(query.redirect_uri)));
            let rt = spec_parse_rt(opt_chars(query.response_type));
            if client_id.len() == 0 {
                r matches Err(e) && missing(e, "client_id is required"@)
            } else if redirect_uri.len() == 0 {
                r matches Err(e) && missing(e, "redirect_uri is required"@)
            } else if rt is None {
                r matches Err(e) && rt_error(e)
            } else {
                r matches Ok(req) && req.client_id@ == client_id && req.redirect_uri@
                    == redirect_uri && req.state@ == or_empty(opt_chars(query.state))
                    && req.response_type@ == rt->0
            }
        }),
{
    let client_id = match &query.client_id {
        Some(c) => normalize_uri(c.as_str()),
        None => String::new(),
    };
    let redirect_uri = match &query.redirect_uri {
        Some(c) => normalize_uri(c.as_str()),
        None => String::new(),
    };
    proof {
        assert(trim(Seq::<char>::empty()) =~= Seq::<char>::empty()) by {
            reveal_with_fuel(crate::text::trim_start, 2);
            reveal_with_fuel(crate::text::trim_end, 2);
        }
    }
    if client_id.as_str().is_empty() {
        return Err(api_err(400, "invalid_request", String::from_str("client_id is required")));
    }
    if redirect_uri.as_str().is_empty() {
        return Err(api_err(400, "invalid_request", String::from_str("redirect_uri is required")));
    }
    let rt = match &query.response_type {
        Some(t) => parse_rt(Some(t.as_str())),
        None => parse_rt(None),
    };
    let response_type = rt?;
    let state = match &query.state {
        Some(t) => t.clone(),
        None => String::new(),
    };
    Ok(InspectRequest { client_id, redirect_uri, state, response_type })
}

/// What the confirmation page shows of the application and the request.
#[derive(Debug)]
pub struct AuthorizeInfo {
    pub app_id: String,
    pub name: String,
    pub description: String,
    pub icon_url: Option<String>,
    pub icon_path: String,
    pub redirect_uri: String,
    pub state: String,
    pub response_type: String,
}

/// `GET /authorize` once the application is looked up by the request's
/// client id: the application card, or why the request is refused.
pub fn inspect_authorize(req: &InspectRequest, found: Option<AppRow>) -> (r: Result<
    AuthorizeInfo,
    ApiError,
>)
    ensures
        r is Ok <==> (found_active(found) && spec_redirect_allowed(found->0, req.redirect_uri@)),
        !found_active(found) ==> (r matches Err(e) && invalid_client(e)),
        found_active(found) && !spec_redirect_allowed(found->0, req.redirect_uri@) ==> (r matches Err(
            e,
        ) && unregistered_redirect(e)),
        r matches Ok(info) ==> ({
            let a = found->0;
            &&& info.app_id@ == a.app_id@
            &&& info.name@ == a.name@
            &&& info.description@ == a.description@
            &&& opt_chars(info.icon_url) == spec_normalize_icon_url(opt_chars(a.icon_url))
            &&& info.icon_path@ == crate::db::icon_path(a.app_id@)
            &&& info.redirect_uri@ == req.redirect_uri@
            &&& info.state@ == req.state@
            &&& info.response_type@ == req.response_type@
        }),
{
    let app = authorized_app(found, req.redirect_uri.as_str())?;
    let icon_url = match &app.icon_url {
        Some(u) => crate::validate::normalize_icon_url(Some(u.as_str())),
        None => crate::validate::normalize_icon_url(None),
    };
    let icon_path = crate::db::icon_path_of(app.app_id.as_str());
    Ok(
        AuthorizeInfo {
            app_id: app.app_id,
            name: app.name,
            description: app.description,
            icon_url,
            icon_path,
            redirect_uri: req.redirect_uri.clone(),
            state: req.state.clone(),
            response_type: req.response_type.clone(),
        },
    )
}

/// The response type a confirmation body asks for: the `response_type`
/// field, or `responseType` when there is no `response_type` field, if it
/// is a string; `code` otherwise.
pub open spec fn body_response_type(body: JsonBody) -> Seq<char> {
    let v = match body.get("response_type"@) {
        Some(v) => str_value(v),
        None => body.get_str("responseType"@),
    };
    match v {
        Some(t) => t,
        None => "code"@,
    }
}

pub fn response_type_field(body: &JsonBody) -> (r: String)
    requires
        body.wf(),
    ensures
        r@ == body_response_type(*body),
{
    let v: Option<String> = match body.find("response_type") {
        Some(i) => match &body.fields[i].1 {
            FieldValue::Str(s) => Some(s.clone()),
            _ => None,
        },
        None => body.get_string("responseType"),
    };
    match v {
        Some(t) => t,
        None => String::from_str("code"),
    }
}

/// A `POST /auth/authorize` request whose parameters are present and valid.
#[derive(Debug)]
pub struct CompleteRequest {
    pub client_id: String,
    pub redirect_uri: String,
    pub response_type: String,
}

/// Checks the parameters of `POST /auth/authorize`: the response type
/// first, then that the trimmed client id and redirect URI are present.
pub fn complete_request(client_id: &str, redirect_uri: &str, response_type: &str) -> (r: Result<
    CompleteRequest,
    ApiError,
>)
    ensures
        ({
            let rt = spec_parse_rt(Some(response_type@));
            if rt is None {
                r matches Err(e) && rt_error(e)
            } else if trim(client_id@).len() == 0 || trim(redirect_uri@).len() == 0 {
                r matches Err(e) && missing(e, "client_id and redirect_uri are required"@)
            } else {
                r matches Ok(req) && req.client_id@ == trim(client_id@) && req.redirect_uri@
                    == trim(redirect_uri@) && req.response_type@ == rt->0
            }
        }),
{
    let rt = parse_rt(Some(response_type))?;
    let redirect = normalize_uri(redirect_uri);
    let client = normalize_uri(client_id);
    if client.as_str().is_empty() || redirect.as_str().is_empty() {
        return Err(
            api_err(
                400,
                "invalid_request",
                String::from_str("client_id and redirect_uri are required"),
            ),
        );
    }
    Ok(CompleteRequest { client_id: client, redirect_uri: redirect, response_type: rt })
}

/// Seconds a one-time code stays valid.
pub const CODE_TTL_SECS: i64 = 300;

/// `{redirect_uri}?code={code}`, then `&state={state}` when there is a state.
pub open spec fn spec_code_redirect(uri: Seq<char>, code: Seq<char>, state: Seq<char>) -> Seq<
    char,
> {
    uri + "?code="@ + code + if state.len() == 0 {
        Seq::<char>::empty()
    } else {
        "&state="@ + state
    }
}

/// `{redirect_uri}#access_token={token}&token_type=Bearer&expires_in={ttl}`,
/// then `&state={state}` when there is a state.
pub open spec fn spec_token_redirect(uri: Seq<char>, token: Seq<char>, ttl: int, state: Seq<
    char,
>) -> Seq<char> {
    uri + "#access_token="@ + token + "&token_type=Bearer&expires_in="@ + fmt_int(ttl) + if state.len()
        == 0 {
        Seq::<char>::empty()
    } else {
        "&state="@ + state
    }
}

fn push_state(out: &mut Vec<char>, state: &str)
    ensures
        final(out)@ == old(out)@ + if state@.len() == 0 {
            Seq::<char>::empty()
        } else {
            "&state="@ + state@
        },
{
    if !state.is_empty() {
        push_str(out, "&state=");
        push_str(out, state);
    } else {
        assert(old(out)@ + Seq::<char>::empty() =~= old(out)@);
    }
}

/// Where the user goes with a one-time code.
pub fn code_redirect(uri: &str, code: &str, state: &str) -> (r: String)
    ensures
        r@ == spec_code_redirect(uri@, code@, state@),
{
    let mut out: Vec<char> = Vec::new();
    push_str(&mut out, uri);
    push_str(&mut out, "?code=");
    push_str(&mut out, code);
    push_state(&mut out, state);
    string_of(&out)
}

/// Where the user goes with a session token in the fragment.
pub fn token_redirect(uri: &str, token: &str, ttl: i64, state: &str) -> (r: String)
    ensures
        r@ == spec_token_redirect(uri@, token@, ttl as int, state@),
{
    let mut out: Vec<char> = Vec::new();
    push_str(&mut out, uri);
    push_str(&mut out, "#access_token=");
    push_str(&mut out, token);
    push_str(&mut out, "&token_type=Bearer&expires_in=");
    push_i64(&mut out, ttl);
    push_state(&mut out, state);
    string_of(&out)
}

/// A one-time code: `ac_` and 48 hex digits of random bytes.
pub open spec fn is_auth_code(c: Seq<char>) -> bool {
    exists|b: Seq<u8>| b.len() == 24 && c == "ac_"@ + spec_hex(b)
}

pub fn new_auth_code() -> (r: String)
    ensures
        is_auth_code(r@),
{
    let hex = random_hex(24);
    let mut out: Vec<char> = Vec::new();
    push_str(&mut out, "ac_");
    push_str(&mut out, hex.as_str());
    string_of(&out)
}

/// What a completed login hands out.
#[derive(Debug)]
pub enum AuthorizeGrant {
    /// A one-time code to store for the user and the application, with its
    /// expiry, and the address that carries it back.
    Code { app_id: String, code: String, expires_at: String, redirect_to: String },
    /// A session to open for the user and the application; its token goes
    /// back by `token_redirect`.
    Token { app_id: String },
}

/// `POST /auth/authorize` once the application is looked up by the
/// request's client id, at Unix time `now`.
pub fn complete_authorize(req: &CompleteRequest, found: Option<AppRow>, state: &str, now: i64) -> (r:
    Result<AuthorizeGrant, ApiError>)
    requires
        now <= i64::MAX - CODE_TTL_SECS,
    ensures
        r is Ok <==> (found_active(found) && spec_redirect_allowed(found->0, req.redirect_uri@)),
        !found_active(found) ==> (r matches Err(e) && invalid_client(e)),
        found_active(found) && !spec_redirect_allowed(found->0, req.redirect_uri@) ==> (r matches Err(
            e,
        ) && unregistered_redirect(e)),
        r matches Ok(AuthorizeGrant::Code { app_id, code, expires_at, redirect_to }) ==> {
            &&& req.response_type@ == "code"@
            &&& app_id@ == found->0.app_id@
            &&& is_auth_code(code@)
            &&& expires_at@ == spec_format_unix_iso(now + CODE_TTL_SECS)
            &&& redirect_to@ == spec_code_redirect(req.redirect_uri@, code@, state@)
        },
        r matches Ok(AuthorizeGrant::Token { app_id }) ==> req.response_type@ != "code"@
            && app_id@ == found->0.app_id@,
{
    let app = authorized_app(found, req.redirect_uri.as_str())?;
    if str_eq(req.response_type.as_str(), "code") {
        let code = new_auth_code();
        let expires_at = format_unix_iso(now + CODE_TTL_SECS);
        let redirect_to = code_redirect(req.redirect_uri.as_str(), code.as_str(), state);
        Ok(AuthorizeGrant::Code { app_id: app.app_id, code, expires_at, redirect_to })
    } else {
        Ok(AuthorizeGrant::Token { app_id: app.app_id })
    }
}

/// A `POST /auth/token` request whose parameters are present.
#[derive(Debug)]
pub struct ExchangeRequest {
    pub code: String,
    pub client_id: String,
    pub client_secret: String,
}

/// The trimmed code and client id and the client secret, all non-empty.
pub fn exchange_request(code: &str, client_id: &str, client_secret: &str) -> (r: Result<
    ExchangeRequest,
    ApiError,
>)
    ensures
        trim(code@).len() == 0 || trim(client_id@).len() == 0 || client_secret@.len() == 0 ==> (r matches Err(
            e,
        ) && missing(e, "code, client_id and client_secret are required"@)),
        r matches Ok(req) ==> req.code@ == trim(code@) && req.client_id@ == trim(client_id@)
            && req.client_secret@ == client_secret@,
        r is Ok <==> !(trim(code@).len() == 0 || trim(client_id@).len() == 0
            || client_secret@.len() == 0),
{
    let c = normalize_uri(code);
    let id = normalize_uri(client_id);
    if c.as_str().is_empty() || id.as_str().is_empty() || client_secret.is_empty() {
        return Err(
            api_err(
                400,
                "invalid_request",
                String::from_str("code, client_id and client_secret are required"),
            ),
        );
    }
    Ok(ExchangeRequest { code: c, client_id: id, client_secret: String::from_str(client_secret) })
}

pub open spec fn invalid_grant(e: ApiError, message: Seq<char>) -> bool {
    is_err(e, 400, "invalid_grant"@) && e.message@ == message
}

/// Whether the stored code can still be exchanged by `client_id`: it was
/// found, is unused and was issued to that client.
pub open spec fn code_usable(found: Option<AuthCodeRow>, client_id: Seq<char>) -> bool {
    found matches Some(row) && row.used == 0 && row.app_id@ == client_id
}

/// The stored one-time code looked up by its text, if `client_id` may
/// exchange it at Unix time `now`. A used code, a missing one and another
/// client's code get the same answer.
pub fn check_auth_code(found: Option<AuthCodeRow>, client_id: &str, now: i64) -> (r: Result<
    AuthCodeRow,
    ApiError,
>)
    requires
        code_usable(found, client_id@) ==> iso_fits(found->0.expires_at@),
    ensures
        !code_usable(found, client_id@) ==> (r matches Err(e) && invalid_grant(
            e,
            "Authorization code is invalid or already used"@,
        )),
        code_usable(found, client_id@) && spec_parse_iso(found->0.expires_at@) < now ==> (r matches Err(
            e,
        ) && invalid_grant(e, "Authorization code expired"@)),
        r is Ok <==> code_usable(found, client_id@) && spec_parse_iso(found->0.expires_at@) >= now,
        r matches Ok(row) ==> found == Some(row),
{
    let row = match found {
        Some(row) => row,
        None => {
            return Err(
                api_err(
                    400,
                    "invalid_grant",
                    String::from_str("Authorization code is invalid or already used"),
                ),
            );
        },
    };
    if row.used != 0 || !str_eq(row.app_id.as_str(), client_id) {
        return Err(
            api_err(
                400,
                "invalid_grant",
                String::from_str("Authorization code is invalid or already used"),
            ),
        );
    }
    if parse_iso_pub(row.expires_at.as_str()) < now {
        return Err(api_err(400, "invalid_grant", String::from_str("Authorization code expired")));
    }
    Ok(row)
}

/// A code issued at Unix time `issued` carries an expiry that reads back as
/// five minutes later: `check_auth_code` accepts it (for its client, while
/// unused) exactly up to that second.
pub proof fn lemma_code_lifetime(issued: i64, row: AuthCodeRow, at: int)
    requires
        -62167219200 <= issued <= i64::MAX - CODE_TTL_SECS,
        row.expires_at@ == spec_format_unix_iso(issued + CODE_TTL_SECS),
    ensures
        iso_fits(row.expires_at@),
        spec_parse_iso(row.expires_at@) >= at <==> at <= issued + CODE_TTL_SECS,
{
    crate::time::lemma_parse_format_roundtrip((issued + CODE_TTL_SECS) as i64);
}

/// 401 `invalid_client` unless `secret` matches the application's stored
/// secret hash.
pub fn check_client_secret(app: &AppRow, secret: &str) -> (r: Result<(), ApiError>)
    requires
        verify_password_defined(app.app_secret_hash@),
    ensures
        r is Ok <==> spec_verify_password(secret@, app.app_secret_hash@),
        r matches Err(e) ==> is_err(e, 401, "invalid_client"@) && e.message@
            == "Invalid client secret"@,
{
    if !verify_password(secret, app.app_secret_hash.as_str()) {
        return Err(api_err(401, "invalid_client", String::from_str("Invalid client secret")));
    }
    Ok(())
}

/// The stored code once an exchange has spent it: marked used.
pub open spec fn spent(row: AuthCodeRow) -> AuthCodeRow {
    AuthCodeRow { app_id: row.app_id, user_id: row.user_id, expires_at: row.expires_at, used: 1 }
}

/// A granted exchange: the user the code was issued for, the client it was
/// issued to, and the code to mark used, with the row as it then stands.
#[derive(Debug)]
pub struct CodeExchange {
    pub user_id: String,
    pub app: AppRow,
    pub spend_code: String,
    pub spent_row: AuthCodeRow,
}

/// Whether the exchange of a stored code by the requesting client goes
/// through at Unix time `now`: the code is usable and unexpired, the client
/// is active and its secret matches.
pub open spec fn exchange_granted(
    request: ExchangeRequest,
    found_code: Option<AuthCodeRow>,
    now: int,
    found_app: Option<AppRow>,
) -> bool {
    &&& code_usable(found_code, request.client_id@)
    &&& spec_parse_iso(found_code->0.expires_at@) >= now
    &&& found_active(found_app)
    &&& spec_verify_password(request.client_secret@, found_app->0.app_secret_hash@)
}

/// Decides a `POST /auth/token` exchange from the stored code and the
/// client looked up by the request: the code is checked first, then the
/// client, then its secret. A granted exchange spends the code, which
/// `spend_code` names and `spent_row` shows.
pub fn grant_exchange(
    request: &ExchangeRequest,
    found_code: Option<AuthCodeRow>,
    now: i64,
    found_app: Option<AppRow>,
) -> (r: Result<CodeExchange, ApiError>)
    requires
        code_usable(found_code, request.client_id@) ==> iso_fits(found_code->0.expires_at@),
        found_active(found_app) ==> verify_password_defined(found_app->0.app_secret_hash@),
    ensures
        r is Ok <==> exchange_granted(*request, found_code, now as int, found_app),
        !code_usable(found_code, request.client_id@) ==> (r matches Err(e) && invalid_grant(
            e,
            "Authorization code is invalid or already used"@,
        )),
        code_usable(found_code, request.client_id@) && spec_parse_iso(found_code->0.expires_at@)
            < now ==> (r matches Err(e) && invalid_grant(e, "Authorization code expired"@)),
        code_usable(found_code, request.client_id@) && spec_parse_iso(found_code->0.expires_at@)
            >= now && !found_active(found_app) ==> (r matches Err(e) && invalid_client(e)),
        code_usable(found_code, request.client_id@) && spec_parse_iso(found_code->0.expires_at@)
            >= now && found_active(found_app) && !spec_verify_password(
            request.client_secret@,
            found_app->0.app_secret_hash@,
        ) ==> (r matches Err(e) && is_err(e, 401, "invalid_client"@) && e.message@
            == "Invalid client secret"@),
        r matches Ok(g) ==> g.user_id@ == found_code->0.user_id@ && found_app == Some(g.app)
            && g.spend_code@ == request.code@ && g.spent_row == spent(found_code->0),
{
    let row = check_auth_code(found_code, request.client_id.as_str(), now)?;
    let app = load_active_app(found_app)?;
    check_client_secret(&app, request.client_secret.as_str())?;
    let spent_row = AuthCodeRow {
        app_id: row.app_id.clone(),
        user_id: row.user_id.clone(),
        expires_at: row.expires_at.clone(),
        used: 1,
    };
    Ok(CodeExchange { user_id: row.user_id, app, spend_code: request.code.clone(), spent_row })
}

/// A code is exchanged at most once: once a granted exchange has spent it,
/// every later exchange of it, by any client at any time, is refused as
/// invalid or already used.
pub proof fn lemma_code_single_use(
    request: ExchangeRequest,
    found_code: Option<AuthCodeRow>,
    now: int,
    found_app: Option<AppRow>,
    later: ExchangeRequest,
    later_now: int,
    later_app: Option<AppRow>,
)
    requires
        exchange_granted(request, found_code, now, found_app),
    ensures
        !code_usable(Some(spent(found_code->0)), later.client_id@),
        !exchange_granted(later, Some(spent(found_code->0)), later_now, later_app),
{
}

} // verus!
