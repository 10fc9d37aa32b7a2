//! Service settings from the Worker's `[vars]`, with defaults and clamping.

use vstd::prelude::*;

use crate::decimal::{parse_i64, parse_i64_spec};
use crate::text::{chars_eq, chars_of, lower_ascii, lower_ascii_chars, string_of, trim, trim_chars};

verus! {

/// The raw text of each setting, `None` where the variable is not set.
#[derive(Clone, Debug)]
pub struct ConfigVars {
    pub app_name: Option<String>,
    pub service_url: Option<String>,
    pub token_ttl_seconds: Option<String>,
    pub password_min_length: Option<String>,
    pub username_min: Option<String>,
    pub username_max: Option<String>,
    pub app_name_max: Option<String>,
    pub app_desc_max: Option<String>,
    pub pbkdf2_iterations: Option<String>,
    pub allow_registration: Option<String>,
    pub require_app_credentials: Option<String>,
    pub jwt_secret: Option<String>,
}

/// The settings as `/health` reports them (no secrets).
#[derive(Debug)]
pub struct PublicConfig {
    pub app_name: String,
    pub service_url: String,
    pub token_ttl_seconds: i64,
    pub password_min_length: usize,
    pub username_min: usize,
    pub username_max: usize,
    pub app_name_max: usize,
    pub app_desc_max: usize,
    pub pbkdf2_iterations: u32,
    pub allow_registration: bool,
    pub require_app_credentials: bool,
}

pub open spec fn opt_view(raw: Option<String>) -> Option<Seq<char>> {
    match raw {
        Some(s) => Some(s@),
        None => None,
    }
}

pub open spec fn clamp(v: int, lo: int, hi: int) -> int {
    if v < lo {
        lo
    } else if v > hi {
        hi
    } else {
        v
    }
}

/// `true`/`1`/`yes`/`on` and `false`/`0`/`no`/`off` (trimmed, any ASCII
/// case); anything else, or no value, gives `fallback`.
pub open spec fn spec_parse_bool(raw: Option<Seq<char>>, fallback: bool) -> bool {
    match raw {
        None => fallback,
        Some(v) => {
            let t = lower_ascii(trim(v));
            if t == "true"@ || t == "1"@ || t == "yes"@ || t == "on"@ {
                true
            } else if t == "false"@ || t == "0"@ || t == "no"@ || t == "off"@ {
                false
            } else {
                fallback
            }
        },
    }
}

/// The switch words read the same in any ASCII case and with any
/// surrounding whitespace: each of `false`, `0`, `no`, `off` turns a switch
/// off and each of `true`, `1`, `yes`, `on` turns it on, whatever the
/// fallback; an absent value gives the fallback.
pub proof fn lemma_parse_bool_words(raw: Seq<char>, fallback: bool)
    ensures
        lower_ascii(trim(raw)) == "false"@ ==> !spec_parse_bool(Some(raw), fallback),
        lower_ascii(trim(raw)) == "0"@ ==> !spec_parse_bool(Some(raw), fallback),
        lower_ascii(trim(raw)) == "no"@ ==> !spec_parse_bool(Some(raw), fallback),
        lower_ascii(trim(raw)) == "off"@ ==> !spec_parse_bool(Some(raw), fallback),
        lower_ascii(trim(raw)) == "true"@ ==> spec_parse_bool(Some(raw), fallback),
        lower_ascii(trim(raw)) == "1"@ ==> spec_parse_bool(Some(raw), fallback),
        lower_ascii(trim(raw)) == "yes"@ ==> spec_parse_bool(Some(raw), fallback),
        lower_ascii(trim(raw)) == "on"@ ==> spec_parse_bool(Some(raw), fallback),
        spec_parse_bool(None, fallback) == fallback,
{
    reveal_strlit("false");
    reveal_strlit("0");
    reveal_strlit("no");
    reveal_strlit("off");
    reveal_strlit("true");
    reveal_strlit("1");
    reveal_strlit("yes");
    reveal_strlit("on");
    let words = seq!["true"@, "1"@, "yes"@, "on"@];
    assert forall|i: int| 0 <= i < 4 implies #[trigger] words[i] != "false"@ && words[i] != "0"@
        && words[i] != "no"@ && words[i] != "off"@ by {
        assert(words[i][0] != "false"@[0] && words[i][0] != "0"@[0] && words[i][0] != "no"@[0]);
        assert(words[i].len() != "off"@.len() || words[i][1] != "off"@[1]);
    }
    assert(words[0] == "true"@ && words[1] == "1"@ && words[2] == "yes"@ && words[3] == "on"@);
}

/// The trimmed value as an `i64` (`fallback` when absent or not a number),
/// clamped to `min..=max`.
pub open spec fn spec_parse_int(raw: Option<Seq<char>>, fallback: int, min: int, max: int) -> int {
    let n = match raw {
        Some(s) => match parse_i64_spec(trim(s)) {
            Some(v) => v,
            None => fallback,
        },
        None => fallback,
    };
    clamp(n, min, max)
}

fn is_word(t: &Vec<char>, w: &str) -> (b: bool)
    ensures
        b == (t@ == w@),
{
    let wc = chars_of(w);
    chars_eq(t.as_slice(), wc.as_slice())
}

pub fn parse_bool(raw: Option<String>, fallback: bool) -> (r: bool)
    ensures
        r == spec_parse_bool(opt_view(raw), fallback),
{
    match raw {
        None => fallback,
        Some(v) => {
            let c = chars_of(v.as_str());
            let t = lower_ascii_chars(trim_chars(&c).as_slice());
            if is_word(&t, "true") || is_word(&t, "1") || is_word(&t, "yes") || is_word(&t, "on") {
                true
            } else if is_word(&t, "false") || is_word(&t, "0") || is_word(&t, "no") || is_word(
                &t,
                "off",
            ) {
                false
            } else {
                fallback
            }
        },
    }
}

pub fn parse_int(raw: Option<String>, fallback: i64, min: i64, max: i64) -> (r: i64)
    requires
        min <= max,
    ensures
        r as int == spec_parse_int(opt_view(raw), fallback as int, min as int, max as int),
{
    let n = match raw {
        Some(s) => {
            let c = chars_of(s.as_str());
            let t = trim_chars(&c);
            match parse_i64(t.as_slice()) {
                Some(v) => v,
                None => fallback,
            }
        },
        None => fallback,
    };
    if n < min {
        min
    } else if n > max {
        max
    } else {
        n
    }
}

fn clone_opt(raw: &Option<String>) -> (r: Option<String>)
    ensures
        opt_view(r) == opt_view(*raw),
{
    match raw {
        Some(s) => Some(s.clone()),
        None => None,
    }
}

pub open spec fn default_app_name() -> Seq<char> {
    "cloudflare-auth"@
}

pub open spec fn default_service_url() -> Seq<char> {
    "https://auth.dayti.de"@
}

pub open spec fn default_jwt_secret() -> Seq<char> {
    "local-dev-secret-change-me-please-32bytes+"@
}

/// Brand name: the trimmed `APP_NAME`, or the default when that is empty.
pub open spec fn spec_app_name(raw: Option<Seq<char>>) -> Seq<char> {
    match raw {
        Some(s) => if trim(s).len() > 0 {
            trim(s)
        } else {
            default_app_name()
        },
        None => default_app_name(),
    }
}

pub fn app_name(vars: &ConfigVars) -> (r: String)
    ensures
        r@ == spec_app_name(opt_view(vars.app_name)),
{
    match &vars.app_name {
        Some(s) => {
            let c = chars_of(s.as_str());
            let t = trim_chars(&c);
            if t.len() > 0 {
                string_of(&t)
            } else {
                String::from_str("cloudflare-auth")
            }
        },
        None => String::from_str("cloudflare-auth"),
    }
}

/// `trim_end_matches('/')`.
pub open spec fn strip_slashes(s: Seq<char>) -> Seq<char>
    decreases s.len(),
{
    if s.len() > 0 && s.last() == '/' {
        strip_slashes(s.drop_last())
    } else {
        s
    }
}

/// Public base URL: `SERVICE_URL` trimmed and without trailing slashes, or
/// the default when that is empty.
pub open spec fn spec_service_url(raw: Option<Seq<char>>) -> Seq<char> {
    match raw {
        Some(s) => if strip_slashes(trim(s)).len() > 0 {
            strip_slashes(trim(s))
        } else {
            default_service_url()
        },
        None => default_service_url(),
    }
}

pub fn service_url(vars: &ConfigVars) -> (r: String)
    ensures
        r@ == spec_service_url(opt_view(vars.service_url)),
{
    match &vars.service_url {
        Some(s) => {
            let c = chars_of(s.as_str());
            let t = trim_chars(&c);
            let mut end = t.len();
            assert(t@.take(end as int) =~= t@);
            while end > 0 && t[end - 1] == '/'
                invariant
                    end <= t@.len(),
                    strip_slashes(t@) == strip_slashes(t@.take(end as int)),
                decreases end,
            {
                assert(t@.take(end as int).drop_last() =~= t@.take(end - 1));
                end = end - 1;
            }
            assert(t@.take(t@.len() as int) =~= t@);
            let u = crate::text::sub_chars(&t, 0, end);
            assert(u@ =~= t@.take(end as int));
            if end > 0 {
                string_of(&u)
            } else {
                String::from_str("https://auth.dayti.de")
            }
        },
        None => String::from_str("https://auth.dayti.de"),
    }
}

pub open spec fn spec_token_ttl(vars: ConfigVars) -> int {
    spec_parse_int(opt_view(vars.token_ttl_seconds), 86400, 1, i64::MAX as int)
}

/// Session lifetime in seconds (default 86400, at least 1).
pub fn token_ttl(vars: &ConfigVars) -> (r: i64)
    ensures
        r == spec_token_ttl(*vars),
        r >= 1,
{
    parse_int(clone_opt(&vars.token_ttl_seconds), 86400, 1, i64::MAX)
}

pub open spec fn spec_password_min(vars: ConfigVars) -> int {
    spec_parse_int(opt_view(vars.password_min_length), 8, 1, 128)
}

/// Minimum password length in characters (default 8, within 1..=128).
pub fn password_min(vars: &ConfigVars) -> (r: usize)
    ensures
        r == spec_password_min(*vars),
        1 <= r <= 128,
{
    parse_int(clone_opt(&vars.password_min_length), 8, 1, 128) as usize
}

pub open spec fn spec_username_bounds(vars: ConfigVars) -> (int, int) {
    let min = spec_parse_int(opt_view(vars.username_min), 3, 1, 64);
    let max = spec_parse_int(opt_view(vars.username_max), 32, min, 64);
    (min, if max > min {
        max
    } else {
        min
    })
}

/// Username length bounds (defaults 3 and 32): `1 <= min <= max <= 64`.
pub fn username_bounds(vars: &ConfigVars) -> (r: (usize, usize))
    ensures
        (r.0 as int, r.1 as int) == spec_username_bounds(*vars),
        1 <= r.0 <= r.1 <= 64,
{
    let min = parse_int(clone_opt(&vars.username_min), 3, 1, 64) as usize;
    let max = parse_int(clone_opt(&vars.username_max), 32, min as i64, 64) as usize;
    (min, if max > min {
        max
    } else {
        min
    })
}

pub open spec fn spec_app_name_max(vars: ConfigVars) -> int {
    spec_parse_int(opt_view(vars.app_name_max), 64, 1, 128)
}

/// Maximum application name length (default 64, within 1..=128).
pub fn app_name_max(vars: &ConfigVars) -> (r: usize)
    ensures
        r == spec_app_name_max(*vars),
        1 <= r <= 128,
{
    parse_int(clone_opt(&vars.app_name_max), 64, 1, 128) as usize
}

pub open spec fn spec_app_desc_max(vars: ConfigVars) -> int {
    spec_parse_int(opt_view(vars.app_desc_max), 256, 0, 512)
}

/// Maximum application description length (default 256, within 0..=512).
pub fn app_desc_max(vars: &ConfigVars) -> (r: usize)
    ensures
        r == spec_app_desc_max(*vars),
        r <= 512,
{
    parse_int(clone_opt(&vars.app_desc_max), 256, 0, 512) as usize
}

pub open spec fn spec_pbkdf2_iterations(vars: ConfigVars) -> int {
    spec_parse_int(opt_view(vars.pbkdf2_iterations), 100000, 100000, 2000000)
}

/// PBKDF2 rounds for new hashes (default 100000, clamped to
/// 100000..=2000000).
pub fn pbkdf2_iterations(vars: &ConfigVars) -> (r: u32)
    ensures
        r == spec_pbkdf2_iterations(*vars),
        100000 <= r <= 2000000,
{
    parse_int(clone_opt(&vars.pbkdf2_iterations), 100000, 100000, 2000000) as u32
}

/// Whether registration is open (default true).
pub fn allow_registration(vars: &ConfigVars) -> (r: bool)
    ensures
        r == spec_parse_bool(opt_view(vars.allow_registration), true),
{
    parse_bool(clone_opt(&vars.allow_registration), true)
}

/// Whether register and login demand app credentials (default false).
pub fn require_app_credentials(vars: &ConfigVars) -> (r: bool)
    ensures
        r == spec_parse_bool(opt_view(vars.require_app_credentials), false),
{
    parse_bool(clone_opt(&vars.require_app_credentials), false)
}

/// The JWT signing secret, or a development default when it is not set.
pub fn jwt_secret(vars: &ConfigVars) -> (r: String)
    ensures
        r@ == match opt_view(vars.jwt_secret) {
            Some(s) => s,
            None => default_jwt_secret(),
        },
{
    match &vars.jwt_secret {
        Some(s) => s.clone(),
        None => String::from_str("local-dev-secret-change-me-please-32bytes+"),
    }
}

/// The effective settings, without the secret.
pub fn public_config(vars: &ConfigVars) -> (r: PublicConfig)
    ensures
        r.app_name@ == spec_app_name(opt_view(vars.app_name)),
        r.service_url@ == spec_service_url(opt_view(vars.service_url)),
        r.token_ttl_seconds == spec_token_ttl(*vars),
        r.password_min_length == spec_password_min(*vars),
        (r.username_min as int, r.username_max as int) == spec_username_bounds(*vars),
        r.app_name_max == spec_app_name_max(*vars),
        r.app_desc_max == spec_app_desc_max(*vars),
        r.pbkdf2_iterations == spec_pbkdf2_iterations(*vars),
        r.allow_registration == spec_parse_bool(opt_view(vars.allow_registration), true),
        r.require_app_credentials == spec_parse_bool(opt_view(vars.require_app_credentials), false),
{
    let (umin, umax) = username_bounds(vars);
    PublicConfig {
        app_name: app_name(vars),
        service_url: service_url(vars),
        token_ttl_seconds: token_ttl(vars),
        password_min_length: password_min(vars),
        username_min: umin,
        username_max: umax,
        app_name_max: app_name_max(vars),
        app_desc_max: app_desc_max(vars),
        pbkdf2_iterations: pbkdf2_iterations(vars),
        allow_registration: allow_registration(vars),
        require_app_credentials: require_app_credentials(vars),
    }
}

} // verus!
