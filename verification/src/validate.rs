//! Input rules: emails, usernames, icon URLs and redirect URI lists.

use vstd::prelude::*;
use vstd::utf8::{encode_utf8, is_ascii_chars};

use crate::db::{str_eq, AppRow};
use crate::http::{api_err, is_err, ApiError};
use crate::password::{spec_verify_password, verify_password, verify_password_defined};
use crate::text::{
    chars_eq, chars_of, has_prefix, is_ws, is_ws_char, lemma_split_concat, lemma_split_len,
    lemma_split_none, lemma_trim_idempotent, lower_ascii,
    lower_ascii_chars, split, split_chars, starts_with, string_of, trim, trim_chars,
};

verus! {

/// Exactly one `@`, something before it, a `.` after it, and no whitespace.
pub open spec fn spec_email_valid(email: Seq<char>) -> bool {
    let parts = split(email, '@');
    &&& parts.len() == 2
    &&& parts[0].len() > 0
    &&& parts[1].contains('.')
    &&& forall|i: int| 0 <= i < email.len() ==> !is_ws(#[trigger] email[i])
}

/// An address with a single `@` is valid exactly when the part before it is
/// not empty, the part after it holds a `.` (any number of them, so
/// sub-domains are fine) and no character is whitespace.
pub proof fn lemma_email_one_at(local: Seq<char>, domain: Seq<char>)
    requires
        !local.contains('@'),
        !domain.contains('@'),
    ensures
        spec_email_valid(local + seq!['@'] + domain) <==> (local.len() > 0 && (exists|j: int|
            0 <= j < domain.len() && domain[j] == '.') && forall|i: int|
            0 <= i < local.len() + 1 + domain.len() ==> !is_ws(
                #[trigger] (local + seq!['@'] + domain)[i],
            )),
{
    lemma_split_concat(local, domain, '@');
    lemma_split_none(local, '@');
    lemma_split_none(domain, '@');
    assert(split(local + seq!['@'] + domain, '@') =~= seq![local, domain]);
}

/// An address without `@`, or with two or more, is never valid.
pub proof fn lemma_email_needs_one_at(a: Seq<char>, b: Seq<char>, c: Seq<char>)
    ensures
        !a.contains('@') ==> !spec_email_valid(a),
        !spec_email_valid(a + seq!['@'] + b + seq!['@'] + c),
{
    if !a.contains('@') {
        lemma_split_none(a, '@');
    }
    lemma_split_concat(a, b + seq!['@'] + c, '@');
    lemma_split_concat(b, c, '@');
    lemma_split_len(a, '@');
    lemma_split_len(b, '@');
    lemma_split_len(c, '@');
    assert(a + seq!['@'] + b + seq!['@'] + c =~= a + seq!['@'] + (b + seq!['@'] + c));
}

fn contains_char(s: &[char], c: char) -> (r: bool)
    ensures
        r == s@.contains(c),
{
    let mut i: usize = 0;
    while i < s.len()
        invariant
            i <= s.len(),
            forall|k: int| 0 <= k < i ==> s@[k] != c,
        decreases s.len() - i,
    {
        if s[i] == c {
            assert(s@[i as int] == c);
            return true;
        }
        i = i + 1;
    }
    false
}

fn any_ws(s: &[char]) -> (r: bool)
    ensures
        r == exists|i: int| 0 <= i < s@.len() && is_ws(#[trigger] s@[i]),
{
    let mut i: usize = 0;
    while i < s.len()
        invariant
            i <= s.len(),
            forall|k: int| 0 <= k < i ==> !is_ws(#[trigger] s@[k]),
        decreases s.len() - i,
    {
        if is_ws_char(s[i]) {
            return true;
        }
        i = i + 1;
    }
    false
}

/// Whether `email` looks like an address.
pub fn email_valid(email: &str) -> (r: bool)
    ensures
        r == spec_email_valid(email@),
{
    let c = chars_of(email);
    let parts = split_chars(&c, '@');
    if parts.len() != 2 {
        return false;
    }
    assert(parts.deep_view()[0] =~= parts[0]@);
    assert(parts.deep_view()[1] =~= parts[1]@);
    parts[0].len() > 0 && contains_char(parts[1].as_slice(), '.') && !any_ws(&c)
}

pub open spec fn is_name_char(c: char) -> bool {
    ('a' <= c && c <= 'z') || ('A' <= c && c <= 'Z') || ('0' <= c && c <= '9') || c == '_'
}

/// `min..=max` characters, each an ASCII letter, digit or `_`.
pub open spec fn spec_username_valid(name: Seq<char>, min: int, max: int) -> bool {
    &&& min <= name.len() <= max
    &&& forall|i: int| 0 <= i < name.len() ==> is_name_char(#[trigger] name[i])
}

/// A username is valid exactly when its length is within `min..=max` and
/// every character is an ASCII letter of either case, an ASCII digit or
/// `_`; any other character (a space, `-`, `.`, a non-ASCII letter) makes it
/// invalid.
pub proof fn lemma_username_rule(name: Seq<char>, min: int, max: int)
    ensures
        spec_username_valid(name, min, max) <==> (min <= name.len() <= max && forall|i: int|
            0 <= i < name.len() ==> {
                let c = #[trigger] name[i];
                ||| 'A' <= c <= 'Z'
                ||| 'a' <= c <= 'z'
                ||| '0' <= c <= '9'
                ||| c == '_'
            }),
{
}

/// Whether `name` is an acceptable username.
pub fn username_valid(name: &str, min: usize, max: usize) -> (r: bool)
    ensures
        r == spec_username_valid(name@, min as int, max as int),
{
    let c = chars_of(name);
    let len = c.len();
    if len < min || len > max {
        return false;
    }
    let mut i: usize = 0;
    while i < len
        invariant
            i <= len == c@.len(),
            c@ == name@,
            min <= len <= max,
            forall|k: int| 0 <= k < i ==> is_name_char(#[trigger] c@[k]),
        decreases len - i,
    {
        let ch = c[i];
        if !(('a' <= ch && ch <= 'z') || ('A' <= ch && ch <= 'Z') || ('0' <= ch && ch <= '9') || ch
            == '_') {
            return false;
        }
        i = i + 1;
    }
    true
}

/// A custom icon: the trimmed text when it is non-empty, at most 512 bytes,
/// and starts with `https://` or `http://` in any ASCII case.
pub open spec fn spec_normalize_icon_url(raw: Option<Seq<char>>) -> Option<Seq<char>> {
    match raw {
        None => None,
        Some(r) => {
            let url = trim(r);
            let lower = lower_ascii(url);
            if url.len() == 0 || encode_utf8(url).len() > 512 {
                None
            } else if !(has_prefix(lower, "https://"@) || has_prefix(lower, "http://"@)) {
                None
            } else {
                Some(url)
            }
        },
    }
}

/// Length in UTF-8 bytes.
fn utf8_len(s: &Vec<char>) -> (r: usize)
    ensures
        r == encode_utf8(s@).len(),
{
    let t = string_of(s.as_slice());
    t.as_str().as_bytes().len()
}

/// An `http(s)` icon URL, trimmed; anything else counts as unset.
pub fn normalize_icon_url(raw: Option<&str>) -> (r: Option<String>)
    ensures
        r matches Some(u) ==> spec_normalize_icon_url(match raw {
            Some(x) => Some(x@),
            None => None,
        }) == Some(u@),
        r is None ==> spec_normalize_icon_url(match raw {
            Some(x) => Some(x@),
            None => None,
        }) is None,
{
    let raw = match raw {
        Some(x) => x,
        None => {
            return None;
        },
    };
    let c = chars_of(raw);
    let url = trim_chars(&c);
    if url.len() == 0 || utf8_len(&url) > 512 {
        return None;
    }
    let lower = lower_ascii_chars(url.as_slice());
    if !(starts_with(lower.as_slice(), "https://") || starts_with(lower.as_slice(), "http://")) {
        return None;
    }
    Some(string_of(&url))
}

/// An accepted icon URL is accepted again unchanged.
pub proof fn lemma_normalize_icon_url_idempotent(raw: Option<Seq<char>>)
    ensures
        spec_normalize_icon_url(raw) matches Some(u) ==> spec_normalize_icon_url(Some(u)) == Some(
            u,
        ),
{
    if let Some(r) = raw {
        lemma_trim_idempotent(r);
    }
}

/// The list of strings that the JSON text `text` holds, or `None` when it is
/// not a JSON array of strings: a function of the text alone.
pub uninterp spec fn spec_json_string_list(text: Seq<char>) -> Option<Seq<Seq<char>>>;

/// The JSON text of a list of strings: a function of the list alone.
pub uninterp spec fn spec_json_encode_strings(list: Seq<Seq<char>>) -> Seq<char>;

/// `serde_json::from_str::<Vec<String>>`, the error mapped to `None`.
/// Claimed: the result is the named function of the text.
#[verifier::external_body]
fn json_string_list(text: &str) -> (r: Option<Vec<String>>)
    ensures
        r matches Some(v) ==> spec_json_string_list(text@) == Some(v.deep_view()),
        r is None ==> spec_json_string_list(text@) is None,
{
    serde_json::from_str::<Vec<String>>(text).ok()
}

/// `serde_json::to_string` of a `Vec<String>`, the error mapped to `None`.
/// Claimed, as serde_json's source shows for a list of strings written to
/// memory: it does not fail, its text is the named function of the list, and
/// reading that text back as a list of strings gives the list.
#[verifier::external_body]
fn json_encode_strings(list: &Vec<String>) -> (r: Option<String>)
    ensures
        r is Some,
        r matches Some(t) ==> t@ == spec_json_encode_strings(list.deep_view())
            && spec_json_string_list(t@) == Some(list.deep_view()),
{
    serde_json::to_string(list).ok()
}

/// The trimmed, non-empty entries, in order.
pub open spec fn trimmed_nonempty(l: Seq<Seq<char>>) -> Seq<Seq<char>>
    decreases l.len(),
{
    if l.len() == 0 {
        Seq::<Seq<char>>::empty()
    } else {
        let r = trimmed_nonempty(l.drop_last());
        let t = trim(l.last());
        if t.len() > 0 {
            r.push(t)
        } else {
            r
        }
    }
}

pub open spec fn take_at_most(l: Seq<Seq<char>>, n: nat) -> Seq<Seq<char>> {
    if l.len() <= n {
        l
    } else {
        l.take(n as int)
    }
}

/// The redirect URIs stored as JSON text: at most 20 trimmed, non-empty
/// entries; none when the text is missing or not a list of strings.
pub open spec fn spec_parse_redirect_uris(raw: Option<Seq<char>>) -> Seq<Seq<char>> {
    match raw {
        None => Seq::<Seq<char>>::empty(),
        Some(s) => match spec_json_string_list(s) {
            None => Seq::<Seq<char>>::empty(),
            Some(l) => take_at_most(trimmed_nonempty(l), 20),
        },
    }
}

/// Reads the stored JSON list of redirect URIs.
pub fn parse_redirect_uris(raw: Option<&str>) -> (r: Vec<String>)
    ensures
        r.deep_view() == spec_parse_redirect_uris(match raw {
            Some(x) => Some(x@),
            None => None,
        }),
{
    let list = match raw {
        Some(s) => match json_string_list(s) {
            Some(l) => l,
            None => {
                return Vec::new();
            },
        },
        None => {
            return Vec::new();
        },
    };
    let ghost all = list.deep_view();
    let mut out: Vec<String> = Vec::new();
    let mut i: usize = 0;
    while i < list.len()
        invariant
            i <= list@.len(),
            all == list.deep_view(),
            out.deep_view() == trimmed_nonempty(all.take(i as int)),
        decreases list@.len() - i,
    {
        assert(all.take(i as int + 1).drop_last() =~= all.take(i as int));
        assert(all[i as int] == list@[i as int]@);
        let c = chars_of(list[i].as_str());
        let t = trim_chars(&c);
        if t.len() > 0 {
            let ghost before = out.deep_view();
            out.push(string_of(&t));
            assert(out.deep_view() =~= before.push(t@));
        }
        i = i + 1;
    }
    assert(all.take(all.len() as int) =~= all);
    proof {
        lemma_trimmed_nonempty_len(all);
    }
    if out.len() > 20 {
        let ghost full = out.deep_view();
        out.truncate(20);
        assert(out.deep_view() =~= full.take(20));
    }
    out
}

proof fn lemma_trimmed_nonempty_len(l: Seq<Seq<char>>)
    ensures
        trimmed_nonempty(l).len() <= l.len(),
    decreases l.len(),
{
    if l.len() > 0 {
        lemma_trimmed_nonempty_len(l.drop_last());
    }
}

/// The entries kept by `serialize_redirect_uris`: trimmed, non-empty, at most
/// 2048 bytes, the first occurrence of each, at most 20.
pub open spec fn collect_uris(items: Seq<Seq<char>>) -> Seq<Seq<char>>
    decreases items.len(),
{
    if items.len() == 0 {
        Seq::<Seq<char>>::empty()
    } else {
        let r = collect_uris(items.drop_last());
        let u = trim(items.last());
        if r.len() >= 20 || u.len() == 0 || encode_utf8(u).len() > 2048 || r.contains(u) {
            r
        } else {
            r.push(u)
        }
    }
}

/// The cleaned list of redirect URIs holds each URI once: no two entries
/// are equal. Each entry is a trimmed input, non-empty and at most 2048
/// bytes; every such trimmed input is in the list unless 20 are already
/// kept; and the list never exceeds 20.
pub proof fn lemma_collect_uris_distinct(l: Seq<Seq<char>>)
    ensures
        collect_uris(l).len() <= 20,
        forall|i: int, j: int|
            0 <= i < j < collect_uris(l).len() ==> #[trigger] collect_uris(l)[i] != #[trigger] collect_uris(l)[j],
        forall|i: int|
            0 <= i < collect_uris(l).len() ==> exists|k: int|
                0 <= k < l.len() && #[trigger] collect_uris(l)[i] == trim(#[trigger] l[k]),
        forall|i: int|
            0 <= i < collect_uris(l).len() ==> #[trigger] collect_uris(l)[i].len() > 0 && encode_utf8(
                collect_uris(l)[i],
            ).len() <= 2048,
        forall|k: int|
            0 <= k < l.len() && trim(#[trigger] l[k]).len() > 0 && encode_utf8(trim(l[k])).len()
                <= 2048 ==> collect_uris(l).contains(trim(l[k])) || collect_uris(l).len() == 20,
    decreases l.len(),
{
    if l.len() > 0 {
        let p = l.drop_last();
        lemma_collect_uris_distinct(p);
        let r = collect_uris(p);
        let u = trim(l.last());
        let out = collect_uris(l);
        assert forall|i: int|
            0 <= i < out.len() implies exists|k: int|
                0 <= k < l.len() && #[trigger] out[i] == trim(#[trigger] l[k]) by {
            if i < r.len() {
                let k = choose|k: int| 0 <= k < p.len() && r[i] == trim(#[trigger] p[k]);
                assert(l[k] == p[k]);
            } else {
                assert(l[l.len() - 1] == l.last());
            }
        }
        assert forall|k: int|
            0 <= k < l.len() && trim(#[trigger] l[k]).len() > 0 && encode_utf8(trim(l[k])).len()
                <= 2048 implies out.contains(trim(l[k])) || out.len() == 20 by {
            if k < l.len() - 1 {
                assert(l[k] == p[k]);
                if r.contains(trim(l[k])) {
                    let m = choose|m: int| 0 <= m < r.len() && r[m] == trim(l[k]);
                    if out != r {
                        assert(out[m] == r[m]);
                    }
                }
            } else {
                if out != r && !r.contains(u) {
                    assert(out[r.len() as int] == u);
                }
            }
        }
    }
}

/// The JSON text stored for a list of redirect URIs.
pub open spec fn spec_serialize_redirect_uris(list: Seq<Seq<char>>) -> Seq<char> {
    spec_json_encode_strings(collect_uris(list))
}

fn contains_string(out: &Vec<String>, u: &Vec<char>) -> (r: bool)
    ensures
        r == out.deep_view().contains(u@),
{
    let mut i: usize = 0;
    while i < out.len()
        invariant
            i <= out@.len(),
            forall|k: int| 0 <= k < i ==> out.deep_view()[k] != u@,
        decreases out@.len() - i,
    {
        let c = chars_of(out[i].as_str());
        if chars_eq(c.as_slice(), u.as_slice()) {
            assert(out.deep_view()[i as int] == u@);
            return true;
        }
        i = i + 1;
    }
    false
}

/// The JSON text of the cleaned list of redirect URIs; reading it back with
/// `parse_redirect_uris` gives exactly the cleaned list.
pub fn serialize_redirect_uris(list: &[String]) -> (r: String)
    ensures
        r@ == spec_serialize_redirect_uris(list.deep_view()),
        spec_parse_redirect_uris(Some(r@)) == collect_uris(list.deep_view()),
{
    let ghost all = list.deep_view();
    let mut out: Vec<String> = Vec::new();
    let mut i: usize = 0;
    while i < list.len() && out.len() < 20
        invariant
            i <= list@.len(),
            all == list.deep_view(),
            out.deep_view() == collect_uris(all.take(i as int)),
        decreases list@.len() - i,
    {
        assert(all.take(i as int + 1).drop_last() =~= all.take(i as int));
        assert(all[i as int] == list@[i as int]@);
        let c = chars_of(list[i].as_str());
        let uri = trim_chars(&c);
        if !(uri.len() == 0 || utf8_len(&uri) > 2048 || contains_string(&out, &uri)) {
            let ghost before = out.deep_view();
            out.push(string_of(&uri));
            assert(out.deep_view() =~= before.push(uri@));
        }
        i = i + 1;
    }
    proof {
        if i < list.len() {
            lemma_collect_full(all, i as int);
        } else {
            assert(all.take(all.len() as int) =~= all);
        }
        lemma_collect_shape(all);
        lemma_trimmed_nonempty_fixed(out.deep_view());
    }
    match json_encode_strings(&out) {
        Some(t) => t,
        None => String::from_str("[]"),
    }
}

proof fn lemma_collect_full(all: Seq<Seq<char>>, k: int)
    requires
        0 <= k <= all.len(),
        collect_uris(all.take(k)).len() >= 20,
    ensures
        collect_uris(all) == collect_uris(all.take(k)),
    decreases all.len() - k,
{
    if k < all.len() {
        assert(all.take(k + 1).drop_last() =~= all.take(k));
        lemma_collect_full(all, k + 1);
    } else {
        assert(all.take(k) =~= all);
    }
}

/// The kept entries are trimmed and non-empty, and at most 20.
proof fn lemma_collect_shape(items: Seq<Seq<char>>)
    ensures
        collect_uris(items).len() <= 20,
        forall|k: int|
            0 <= k < collect_uris(items).len() ==> trim(#[trigger] collect_uris(items)[k])
                == collect_uris(items)[k] && collect_uris(items)[k].len() > 0,
    decreases items.len(),
{
    if items.len() > 0 {
        lemma_collect_shape(items.drop_last());
        lemma_trim_idempotent(items.last());
    }
}

/// A list of trimmed, non-empty entries is kept as it is.
proof fn lemma_trimmed_nonempty_fixed(l: Seq<Seq<char>>)
    requires
        l.len() <= 20,
        forall|k: int| 0 <= k < l.len() ==> trim(#[trigger] l[k]) == l[k] && l[k].len() > 0,
    ensures
        take_at_most(trimmed_nonempty(l), 20) == l,
    decreases l.len(),
{
    if l.len() > 0 {
        lemma_trimmed_nonempty_fixed(l.drop_last());
        assert(trim(l[l.len() - 1]) == l.last());
        assert(l.drop_last().push(l.last()) =~= l);
    } else {
        assert(trimmed_nonempty(l) =~= l);
    }
}

/// What `url::Url::parse` makes of a text: `None` when it is not a URL,
/// else the URL's query (if it has one). A function of the text alone.
pub uninterp spec fn spec_parse_url(text: Seq<char>) -> Option<Option<Seq<char>>>;

/// The query of a URL, `None` when the text is not a URL or has no query.
pub open spec fn spec_url_query(url: Seq<char>) -> Option<Seq<char>> {
    match spec_parse_url(url) {
        Some(Some(q)) => Some(q),
        _ => None,
    }
}

/// `url::Url::parse`, then `query`: `None` when the text is not a URL,
/// else the URL's query. Claimed: the result is the named function of the
/// text, and a query is ASCII (the URL standard's serializer percent-encodes
/// everything else, and the url crate keeps that form).
#[verifier::external_body]
fn parse_url(text: &str) -> (r: Option<Option<String>>)
    ensures
        match r {
            None => spec_parse_url(text@) is None,
            Some(None) => spec_parse_url(text@) == Some(None::<Seq<char>>),
            Some(Some(q)) => spec_parse_url(text@) == Some(Some(q@)) && is_ascii_chars(q@),
        },
{
    let u = url::Url::parse(text).ok()?;
    Some(u.query().map(String::from))
}

/// The query of a URL (ASCII text), `None` when the text is not a URL or has
/// no query.
pub fn url_query(url: &str) -> (r: Option<String>)
    ensures
        r matches Some(q) ==> spec_url_query(url@) == Some(q@) && is_ascii_chars(q@),
        r is None ==> spec_url_query(url@) is None,
{
    match parse_url(url) {
        Some(q) => q,
        None => None,
    }
}

/// Whether the text parses as a URL.
pub fn url_parses(text: &str) -> (r: bool)
    ensures
        r == spec_parse_url(text@) is Some,
{
    parse_url(text).is_some()
}

pub open spec fn bad_app_credentials(e: ApiError) -> bool {
    is_err(e, 401, "invalid_app_credentials"@) && e.message@ == "Invalid app credentials"@
}

pub open spec fn missing_app_credentials(e: ApiError) -> bool {
    is_err(e, 401, "invalid_app_credentials"@) && e.message@
        == "X-App-Id and X-App-Secret are required"@
}

/// Which application id the `X-App-Id` and `X-App-Secret` headers ask to
/// check: none when neither is sent, the id when both are sent and not
/// empty, 401 for half a pair or an empty one.
pub fn credentials_to_check(app_id: Option<&str>, app_secret: Option<&str>) -> (r: Result<
    Option<String>,
    ApiError,
>)
    ensures
        match (app_id, app_secret) {
            (None, None) => r == Ok::<Option<String>, ApiError>(None),
            (Some(id), Some(secret)) => if id@.len() > 0 && secret@.len() > 0 {
                r matches Ok(Some(x)) && x@ == id@
            } else {
                r matches Err(e) && bad_app_credentials(e)
            },
            _ => r matches Err(e) && bad_app_credentials(e),
        },
{
    match (app_id, app_secret) {
        (None, None) => Ok(None),
        (Some(id), Some(secret)) => {
            if !id.is_empty() && !secret.is_empty() {
                Ok(Some(String::from_str(id)))
            } else {
                Err(api_err(401, "invalid_app_credentials", String::from_str("Invalid app credentials")))
            }
        },
        _ => Err(api_err(401, "invalid_app_credentials", String::from_str("Invalid app credentials"))),
    }
}

/// The application the credentials name, once looked up by id: it must be
/// active and `secret` must check against its stored hash; any failure is
/// the same 401.
pub fn check_app_credentials(found: Option<AppRow>, secret: &str) -> (r: Result<AppRow, ApiError>)
    requires
        (found matches Some(a) && a.status@ == "active"@) ==> verify_password_defined(
            found->0.app_secret_hash@,
        ),
    ensures
        r is Ok <==> (found matches Some(a) && a.status@ == "active"@ && spec_verify_password(
            secret@,
            a.app_secret_hash@,
        )),
        r matches Ok(a) ==> found == Some(a),
        r matches Err(e) ==> bad_app_credentials(e),
{
    let app = match found {
        Some(a) => a,
        None => {
            return Err(api_err(401, "invalid_app_credentials", String::from_str("Invalid app credentials")));
        },
    };
    if !str_eq(app.status.as_str(), "active") || !verify_password(secret, app.app_secret_hash.as_str()) {
        return Err(api_err(401, "invalid_app_credentials", String::from_str("Invalid app credentials")));
    }
    Ok(app)
}

/// Credentials that must be present: 401 when none were sent.
pub fn require_app_credentials(app: Option<AppRow>) -> (r: Result<AppRow, ApiError>)
    ensures
        app matches Some(a) ==> r == Ok::<AppRow, ApiError>(a),
        app is None ==> (r matches Err(e) && missing_app_credentials(e)),
{
    match app {
        Some(a) => Ok(a),
        None => Err(
            api_err(
                401,
                "invalid_app_credentials",
                String::from_str("X-App-Id and X-App-Secret are required"),
            ),
        ),
    }
}

/// Credentials that must be present when the service requires them.
pub fn ensure_app_credentials_if_required(required: bool, app: Option<AppRow>) -> (r: Result<
    Option<AppRow>,
    ApiError,
>)
    ensures
        required && app is None ==> (r matches Err(e) && missing_app_credentials(e)),
        !(required && app is None) ==> r == Ok::<Option<AppRow>, ApiError>(app),
{
    if required && app.is_none() {
        return Err(
            api_err(
                401,
                "invalid_app_credentials",
                String::from_str("X-App-Id and X-App-Secret are required"),
            ),
        );
    }
    Ok(app)
}

} // verus!
