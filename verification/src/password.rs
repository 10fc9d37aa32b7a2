//! PBKDF2 password hashes, HS256 JWTs, random identifiers and hex text.

use base64::Engine;
use hmac::Mac;
use vstd::prelude::*;
use vstd::utf8::{
    decode_utf8, encode_utf8, encode_utf8_decode_utf8, encode_utf8_valid_utf8, is_ascii_chars,
    is_ascii_chars_encode_utf8,
    is_continuation_byte, valid_utf8,
};

use crate::decimal::{
    all_digits, digits_of, fmt_int, is_digit, lemma_digits_of, parse_u32, parse_u32_spec, push_i64,
    push_u64,
};
use crate::time::{max_now, now_ts};
use crate::text::{
    chars_eq, chars_of, lemma_split_concat, lemma_split_none, push_all, push_str, split,
    split_chars, string_of, sub_chars,
};

verus! {

/// Lower-case hex digit of `n` (`0 <= n < 16`).
pub open spec fn hex_digit(n: int) -> char {
    if n < 10 {
        ((n + 48) as u32) as char
    } else {
        ((n + 87) as u32) as char
    }
}

/// Two lower-case hex digits per byte (`format!("{b:02x}")` for each byte).
pub open spec fn spec_hex(b: Seq<u8>) -> Seq<char>
    decreases b.len(),
{
    if b.len() == 0 {
        Seq::<char>::empty()
    } else {
        spec_hex(b.drop_last()) + seq![
            hex_digit(b.last() as int / 16),
            hex_digit(b.last() as int % 16),
        ]
    }
}

pub open spec fn is_lower_hex_char(c: char) -> bool {
    ('0' <= c && c <= '9') || ('a' <= c && c <= 'f')
}

pub proof fn lemma_spec_hex_shape(b: Seq<u8>)
    ensures
        spec_hex(b).len() == 2 * b.len(),
        forall|i: int| 0 <= i < spec_hex(b).len() ==> is_lower_hex_char(#[trigger] spec_hex(b)[i]),
        forall|i: int|
            0 <= i < b.len() ==> spec_hex(b)[2 * i] == hex_digit(b[i] as int / 16) && spec_hex(b)[2
                * i + 1] == hex_digit(b[i] as int % 16),
    decreases b.len(),
{
    if b.len() > 0 {
        lemma_spec_hex_shape(b.drop_last());
        let p = spec_hex(b.drop_last());
        assert forall|i: int| 0 <= i < b.len() implies spec_hex(b)[2 * i] == hex_digit(
            b[i] as int / 16,
        ) && spec_hex(b)[2 * i + 1] == hex_digit(b[i] as int % 16) by {
            if i < b.len() - 1 {
                assert(b.drop_last()[i] == b[i]);
            }
        }
    }
}

fn hex_digit_char(n: u8) -> (c: char)
    requires
        n < 16,
    ensures
        c == hex_digit(n as int),
{
    if n < 10 {
        (n + 48) as char
    } else {
        (n + 87) as char
    }
}

/// Appends the hex text of `bytes`.
pub fn push_hex(out: &mut Vec<char>, bytes: &[u8])
    ensures
        final(out)@ == old(out)@ + spec_hex(bytes@),
{
    let mut i: usize = 0;
    while i < bytes.len()
        invariant
            i <= bytes.len(),
            out@ == old(out)@ + spec_hex(bytes@.take(i as int)),
        decreases bytes.len() - i,
    {
        let b = bytes[i];
        out.push(hex_digit_char(b / 16));
        out.push(hex_digit_char(b % 16));
        assert(bytes@.take(i as int + 1).drop_last() =~= bytes@.take(i as int));
        assert(out@ =~= old(out)@ + spec_hex(bytes@.take(i as int + 1)));
        i = i + 1;
    }
    assert(bytes@.take(bytes@.len() as int) =~= bytes@);
}

/// Lower-case hex text of `bytes`.
pub fn bytes_to_hex(bytes: &[u8]) -> (r: String)
    ensures
        r@ == spec_hex(bytes@),
{
    let mut out: Vec<char> = Vec::new();
    push_hex(&mut out, bytes);
    string_of(&out)
}

/// Value of an ASCII hex digit, either case.
pub open spec fn hex_value(b: u8) -> Option<int> {
    if 48 <= b <= 57 {
        Some(b - 48)
    } else if 97 <= b <= 102 {
        Some(b - 87)
    } else if 65 <= b <= 70 {
        Some(b - 55)
    } else {
        None
    }
}

/// `u8::from_str_radix` of a two-byte text in base 16: two hex digits, or
/// `+` and one hex digit.
pub open spec fn pair_value(b1: u8, b2: u8) -> Option<u8> {
    match (hex_value(b1), hex_value(b2)) {
        (Some(h), Some(l)) => Some((16 * h + l) as u8),
        (None, Some(l)) => if b1 == 43 {
            Some(l as u8)
        } else {
            None
        },
        _ => None,
    }
}

/// The values of the byte pairs that parse, in order.
pub open spec fn spec_hex_pairs(b: Seq<u8>) -> Seq<u8>
    decreases b.len(),
{
    if b.len() < 2 {
        Seq::<u8>::empty()
    } else {
        let r = spec_hex_pairs(b.take(b.len() - 2));
        match pair_value(b[b.len() - 2], b[b.len() - 1]) {
            Some(v) => r.push(v),
            None => r,
        }
    }
}

/// `hex_to_bytes` on the UTF-8 bytes of its text: empty for an odd length,
/// else the parsing pairs.
pub open spec fn spec_hex_to_bytes(b: Seq<u8>) -> Seq<u8> {
    if b.len() % 2 != 0 {
        Seq::<u8>::empty()
    } else {
        spec_hex_pairs(b)
    }
}

/// Cutting the text into two-byte pieces only cuts between characters.
pub open spec fn pairs_on_boundaries(b: Seq<u8>) -> bool {
    b.len() % 2 != 0 || forall|k: int|
        0 <= k < b.len() && k % 2 == 0 ==> !is_continuation_byte(#[trigger] b[k])
}

fn hex_value_of(b: u8) -> (r: Option<u8>)
    ensures
        r matches Some(v) ==> hex_value(b) == Some(v as int),
        r is None ==> hex_value(b) is None,
{
    if 48 <= b && b <= 57 {
        Some(b - 48)
    } else if 97 <= b && b <= 102 {
        Some(b - 87)
    } else if 65 <= b && b <= 70 {
        Some(b - 55)
    } else {
        None
    }
}

/// `u8::from_str_radix(.., 16)` of two bytes.
pub fn pair_value_of(b1: u8, b2: u8) -> (r: Option<u8>)
    ensures
        r == pair_value(b1, b2),
{
    match (hex_value_of(b1), hex_value_of(b2)) {
        (Some(h), Some(l)) => Some(16 * h + l),
        (None, Some(l)) => if b1 == 43 {
            Some(l)
        } else {
            None
        },
        _ => None,
    }
}

/// `hex_to_bytes` on raw bytes.
pub fn hex_bytes(b: &[u8]) -> (r: Vec<u8>)
    ensures
        r@ == spec_hex_to_bytes(b@),
{
    let len = b.len();
    let mut r: Vec<u8> = Vec::new();
    if len % 2 != 0 {
        return r;
    }
    let mut i: usize = 0;
    while i < len
        invariant
            i <= len == b@.len(),
            len % 2 == 0,
            i % 2 == 0,
            r@ == spec_hex_pairs(b@.take(i as int)),
        decreases len - i,
    {
        assert(b@.take(i as int + 2).take(i as int) =~= b@.take(i as int));
        match pair_value_of(b[i], b[i + 1]) {
            Some(v) => r.push(v),
            None => {},
        }
        i = i + 2;
    }
    assert(b@.take(len as int) =~= b@);
    r
}

/// Bytes of a hex text (pairs that do not parse are skipped; an odd length
/// gives no bytes).
pub fn hex_to_bytes(hex: &str) -> (r: Vec<u8>)
    requires
        pairs_on_boundaries(encode_utf8(hex@)),
    ensures
        r@ == spec_hex_to_bytes(encode_utf8(hex@)),
{
    hex_bytes(hex.as_bytes())
}

/// The hex text of bytes is ASCII.
pub proof fn lemma_hex_ascii(b: Seq<u8>)
    ensures
        is_ascii_chars(spec_hex(b)),
        encode_utf8(spec_hex(b)).len() == 2 * b.len(),
        forall|i: int|
            0 <= i < 2 * b.len() ==> #[trigger] encode_utf8(spec_hex(b))[i] == spec_hex(b)[i] as u8,
{
    lemma_spec_hex_shape(b);
    is_ascii_chars_encode_utf8(spec_hex(b));
}

proof fn lemma_hex_digit_value(n: int)
    requires
        0 <= n < 16,
    ensures
        hex_value(hex_digit(n) as u8) == Some(n),
{
}

/// Reading the hex text of some bytes gives the bytes back.
pub proof fn lemma_hex_roundtrip(b: Seq<u8>)
    ensures
        spec_hex_to_bytes(encode_utf8(spec_hex(b))) == b,
        pairs_on_boundaries(encode_utf8(spec_hex(b))),
{
    lemma_hex_ascii(b);
    lemma_spec_hex_shape(b);
    let e = encode_utf8(spec_hex(b));
    lemma_hex_pairs_prefix(b, e, b.len() as int);
    assert(e.take(e.len() as int) =~= e);
    assert(b.take(b.len() as int) =~= b);
}

proof fn lemma_hex_pairs_prefix(b: Seq<u8>, e: Seq<u8>, n: int)
    requires
        0 <= n <= b.len(),
        e.len() == 2 * b.len(),
        forall|i: int|
            0 <= i < b.len() ==> e[2 * i] == hex_digit(b[i] as int / 16) as u8 && e[2 * i + 1]
                == hex_digit(b[i] as int % 16) as u8,
    ensures
        spec_hex_pairs(e.take(2 * n)) == b.take(n),
    decreases n,
{
    if n > 0 {
        assert(e.take(2 * n).take(2 * n - 2) =~= e.take(2 * (n - 1)));
        lemma_hex_pairs_prefix(b, e, n - 1);
        let x = b[n - 1];
        lemma_hex_digit_value(x as int / 16);
        lemma_hex_digit_value(x as int % 16);
        assert(e.take(2 * n)[2 * n - 2] == e[2 * (n - 1)]);
        assert(e.take(2 * n)[2 * n - 1] == e[2 * (n - 1) + 1]);
        assert(pair_value(e[2 * (n - 1)], e[2 * (n - 1) + 1]) == Some(x));
        assert(b.take(n - 1).push(x) =~= b.take(n));
    } else {
        assert(b.take(0) =~= Seq::<u8>::empty());
    }
}

/// Whether `a` and `b` are equal, in time that depends only on their lengths.
pub fn timing_safe_eq(a: &[u8], b: &[u8]) -> (r: bool)
    ensures
        r == (a@ == b@),
{
    if a.len() != b.len() {
        return false;
    }
    let mut diff: u8 = 0;
    let mut i: usize = 0;
    while i < a.len()
        invariant
            i <= a.len() == b.len(),
            diff == 0 <==> forall|k: int| 0 <= k < i ==> a@[k] == b@[k],
        decreases a.len() - i,
    {
        let x = a[i];
        let y = b[i];
        let d = diff;
        assert((d | (x ^ y)) == 0 <==> (d == 0 && x == y)) by (bit_vector);
        diff = d | (x ^ y);
        i = i + 1;
    }
    if diff == 0 {
        assert(a@ =~= b@);
    }
    diff == 0
}

/// Fills a buffer of `len` bytes from the system's random source
/// (`getrandom::getrandom`); the bytes are unpredictable, so only their number
/// is stated. Panics when the source fails.
#[verifier::external_body]
fn random_bytes(len: usize) -> (r: Vec<u8>)
    ensures
        r@.len() == len,
{
    let mut buf = vec![0u8; len];
    getrandom::getrandom(&mut buf).expect("random");
    buf
}

/// Hex text of `byte_len` random bytes.
pub fn random_hex(byte_len: usize) -> (r: String)
    ensures
        exists|b: Seq<u8>| b.len() == byte_len && r@ == spec_hex(b),
{
    let bytes = random_bytes(byte_len);
    bytes_to_hex(&bytes)
}

/// A 32 hex digit record key.
pub fn random_id() -> (r: String)
    ensures
        exists|b: Seq<u8>| b.len() == 16 && r@ == spec_hex(b),
{
    random_hex(16)
}

/// PBKDF2-HMAC-SHA256 of the UTF-8 bytes of a password: a function of its
/// arguments alone.
pub uninterp spec fn spec_pbkdf2_sha256(password: Seq<char>, salt: Seq<u8>, rounds: u32, len: nat) -> Seq<u8>;

/// `pbkdf2::pbkdf2_hmac::<Sha256>` of the password's UTF-8 bytes into a
/// buffer of `len` bytes. Claimed: the output is the named function of the
/// password text, salt, rounds and length, and has `len` bytes. The digest
/// itself is not written out.
#[verifier::external_body]
fn pbkdf2_sha256(password: &str, salt: &[u8], rounds: u32, len: usize) -> (r: Vec<u8>)
    ensures
        r@ == spec_pbkdf2_sha256(password@, salt@, rounds, len as nat),
        r@.len() == len,
{
    let mut out = vec![0u8; len];
    pbkdf2::pbkdf2_hmac::<sha2::Sha256>(password.as_bytes(), salt, rounds, &mut out);
    out
}

pub open spec fn pbkdf2_tag() -> Seq<char> {
    seq!['p', 'b', 'k', 'd', 'f', '2']
}

/// `pbkdf2$iterations$saltHex$hashHex` for the given salt text.
pub open spec fn spec_password_hash(password: Seq<char>, iterations: u32, salt_hex: Seq<char>) -> Seq<
    char,
> {
    let salt = spec_hex_to_bytes(encode_utf8(salt_hex));
    pbkdf2_tag() + seq!['$'] + digits_of(iterations as nat) + seq!['$'] + salt_hex + seq!['$']
        + spec_hex(spec_pbkdf2_sha256(password, salt, iterations, 32))
}

/// The stored form of `password` with the given hex salt.
pub fn hash_password_with_salt(password: &str, iterations: u32, salt_hex: &str) -> (r: String)
    requires
        pairs_on_boundaries(encode_utf8(salt_hex@)),
    ensures
        r@ == spec_password_hash(password@, iterations, salt_hex@),
        spec_pbkdf2_sha256(password@, spec_hex_to_bytes(encode_utf8(salt_hex@)), iterations, 32).len()
            == 32,
{
    let salt = hex_to_bytes(salt_hex);
    let out = pbkdf2_sha256(password, &salt, iterations, 32);
    let mut text: Vec<char> = Vec::new();
    let tag = "pbkdf2";
    proof {
        reveal_strlit("pbkdf2");
    }
    push_str(&mut text, tag);
    text.push('$');
    push_u64(&mut text, iterations as u64);
    text.push('$');
    push_str(&mut text, salt_hex);
    text.push('$');
    push_hex(&mut text, &out);
    assert(text@ =~= spec_password_hash(password@, iterations, salt_hex@));
    string_of(&text)
}

/// Stored form `pbkdf2$iterations$saltHex$hashHex` of `password`, with 16
/// random salt bytes.
pub fn hash_password(password: &str, iterations: u32) -> (r: String)
    ensures
        exists|salt: Seq<u8>|
            salt.len() == 16 && r@ == spec_password_hash(password@, iterations, spec_hex(salt))
                && #[trigger] spec_pbkdf2_sha256(password@, salt, iterations, 32).len() == 32,
        iterations != 0 ==> verify_password_defined(r@) && spec_verify_password(password@, r@),
{
    let salt_hex = random_hex(16);
    let ghost salt = choose|b: Seq<u8>| b.len() == 16 && salt_hex@ == spec_hex(b);
    proof {
        lemma_hex_roundtrip(salt);
    }
    let r = hash_password_with_salt(password, iterations, salt_hex.as_str());
    proof {
        if iterations != 0 {
            lemma_password_hash_verifies(password@, iterations, salt);
        }
    }
    r
}

/// The stored hash would be checked against `iterations` rounds over `salt`.
pub open spec fn stored_fields(stored: Seq<char>) -> Option<(u32, Seq<char>, Seq<char>)> {
    let parts = split(stored, '$');
    if parts.len() != 4 || parts[0] != pbkdf2_tag() {
        None
    } else {
        match parse_u32_spec(parts[1]) {
            None => None,
            Some(it) => if it == 0 {
                None
            } else {
                Some((it as u32, parts[2], parts[3]))
            },
        }
    }
}

/// `verify_password` reads the salt only where its pairs fall on character
/// boundaries (elsewhere the slice would panic).
pub open spec fn verify_password_defined(stored: Seq<char>) -> bool {
    match stored_fields(stored) {
        None => true,
        Some((_, salt_hex, _)) => pairs_on_boundaries(encode_utf8(salt_hex)),
    }
}

fn boundaries_ok(b: &[u8]) -> (r: bool)
    ensures
        r == pairs_on_boundaries(b@),
{
    if b.len() % 2 != 0 {
        return true;
    }
    let mut i: usize = 0;
    while i < b.len()
        invariant
            i <= b.len(),
            i % 2 == 0,
            b.len() % 2 == 0,
            forall|k: int| 0 <= k < i && k % 2 == 0 ==> !is_continuation_byte(#[trigger] b@[k]),
        decreases b.len() - i,
    {
        if 0x80 <= b[i] && b[i] <= 0xbf {
            return false;
        }
        i = i + 2;
    }
    true
}

/// Whether `verify_password` can read the stored hash: its salt's byte pairs
/// fall on character boundaries.
pub fn password_check_defined(stored: &str) -> (r: bool)
    ensures
        r == verify_password_defined(stored@),
{
    let chars = chars_of(stored);
    let parts = split_chars(&chars, '$');
    let tag = chars_of("pbkdf2");
    proof {
        reveal_strlit("pbkdf2");
        assert(tag@ =~= pbkdf2_tag());
    }
    if parts.len() != 4 || !chars_eq(parts[0].as_slice(), tag.as_slice()) {
        proof {
            if parts.len() == 4 {
                assert(parts.deep_view()[0] =~= parts[0]@);
            }
        }
        return true;
    }
    assert(parts.deep_view()[0] =~= parts[0]@);
    assert(parts.deep_view()[1] =~= parts[1]@);
    assert(parts.deep_view()[2] =~= parts[2]@);
    let iterations = match parse_u32(parts[1].as_slice()) {
        Some(v) => v,
        None => {
            return true;
        },
    };
    if iterations == 0 {
        return true;
    }
    let salt_text = string_of(parts[2].as_slice());
    boundaries_ok(salt_text.as_str().as_bytes())
}

/// Whether `password` matches the stored hash.
pub open spec fn spec_verify_password(password: Seq<char>, stored: Seq<char>) -> bool {
    match stored_fields(stored) {
        None => false,
        Some((it, salt_hex, expected)) => {
            let salt = spec_hex_to_bytes(encode_utf8(salt_hex));
            let elen = encode_utf8(expected).len();
            let n = elen / 2;
            n != 0 && n * 2 == elen && spec_hex(spec_pbkdf2_sha256(password, salt, it, n))
                == expected
        },
    }
}

/// Checks `password` against a stored `pbkdf2$iterations$saltHex$hashHex`.
pub fn verify_password(password: &str, stored: &str) -> (r: bool)
    requires
        verify_password_defined(stored@),
    ensures
        r == spec_verify_password(password@, stored@),
{
    let chars = chars_of(stored);
    let parts = split_chars(&chars, '$');
    let tag = chars_of("pbkdf2");
    proof {
        reveal_strlit("pbkdf2");
        assert(tag@ =~= pbkdf2_tag());
    }
    if parts.len() != 4 || !chars_eq(parts[0].as_slice(), tag.as_slice()) {
        proof {
            if parts.len() == 4 {
                assert(parts.deep_view()[0] =~= parts[0]@);
            }
        }
        return false;
    }
    assert(parts.deep_view()[0] =~= parts[0]@);
    assert(parts.deep_view()[1] =~= parts[1]@);
    assert(parts.deep_view()[2] =~= parts[2]@);
    assert(parts.deep_view()[3] =~= parts[3]@);
    let iterations = match parse_u32(parts[1].as_slice()) {
        Some(v) => v,
        None => {
            return false;
        },
    };
    if iterations == 0 {
        return false;
    }
    let salt_text = string_of(parts[2].as_slice());
    let salt = hex_to_bytes(salt_text.as_str());
    let expected = string_of(parts[3].as_slice());
    let elen = expected.as_str().as_bytes().len();
    let n = elen / 2;
    if n == 0 || n * 2 != elen {
        return false;
    }
    let out = pbkdf2_sha256(password, &salt, iterations, n);
    let actual = bytes_to_hex(&out);
    let same = timing_safe_eq(actual.as_str().as_bytes(), expected.as_str().as_bytes());
    proof {
        encode_utf8_decode_utf8(actual@);
        encode_utf8_decode_utf8(expected@);
    }
    same
}

/// A password checks against its own stored hash, whatever the salt and for
/// any nonzero iteration count.
proof fn lemma_password_hash_verifies(password: Seq<char>, iterations: u32, salt: Seq<u8>)
    requires
        iterations != 0,
        spec_pbkdf2_sha256(password, salt, iterations, 32).len() == 32,
    ensures
        verify_password_defined(spec_password_hash(password, iterations, spec_hex(salt))),
        spec_verify_password(password, spec_password_hash(password, iterations, spec_hex(salt))),
        stored_fields(spec_password_hash(password, iterations, spec_hex(salt))) == Some(
            (iterations, spec_hex(salt), spec_hex(spec_pbkdf2_sha256(password, salt, iterations, 32))),
        ),
{
    let sh = spec_hex(salt);
    let it = digits_of(iterations as nat);
    let hh = spec_hex(spec_pbkdf2_sha256(password, spec_hex_to_bytes(encode_utf8(sh)), iterations, 32));
    let stored = spec_password_hash(password, iterations, sh);
    lemma_hex_roundtrip(salt);
    lemma_spec_hex_shape(salt);
    lemma_spec_hex_shape(spec_pbkdf2_sha256(password, salt, iterations, 32));
    lemma_digits_of(iterations as nat);
    lemma_no_dollar_lower_hex(sh);
    lemma_no_dollar_lower_hex(hh);
    lemma_no_dollar_digits(it);
    assert(!pbkdf2_tag().contains('$')) by {
        if pbkdf2_tag().contains('$') {
            let k = choose|k: int| 0 <= k < pbkdf2_tag().len() && pbkdf2_tag()[k] == '$';
        }
    }
    assert(stored =~= pbkdf2_tag() + seq!['$'] + it + seq!['$'] + sh + seq!['$'] + hh);
    lemma_split_concat(pbkdf2_tag() + seq!['$'] + it + seq!['$'] + sh, hh, '$');
    lemma_split_concat(pbkdf2_tag() + seq!['$'] + it, sh, '$');
    lemma_split_concat(pbkdf2_tag(), it, '$');
    lemma_split_none(pbkdf2_tag(), '$');
    lemma_split_none(it, '$');
    lemma_split_none(sh, '$');
    lemma_split_none(hh, '$');
    let parts = split(stored, '$');
    assert(parts =~= seq![pbkdf2_tag(), it, sh, hh]);
    assert(is_digit(it[0]));
    assert(parse_u32_spec(it) == Some(iterations as int));
    lemma_hex_ascii(spec_pbkdf2_sha256(password, salt, iterations, 32));
}

/// Another password does not check against a stored hash (short of a
/// PBKDF2 collision between the two under the same salt and rounds).
pub proof fn lemma_other_password_refused(
    password: Seq<char>,
    other: Seq<char>,
    iterations: u32,
    salt: Seq<u8>,
)
    requires
        iterations != 0,
        spec_pbkdf2_sha256(password, salt, iterations, 32).len() == 32,
        spec_pbkdf2_sha256(other, salt, iterations, 32) != spec_pbkdf2_sha256(
            password,
            salt,
            iterations,
            32,
        ),
    ensures
        !spec_verify_password(other, spec_password_hash(password, iterations, spec_hex(salt))),
{
    let digest = spec_pbkdf2_sha256(password, salt, iterations, 32);
    let theirs = spec_pbkdf2_sha256(other, salt, iterations, 32);
    lemma_password_hash_verifies(password, iterations, salt);
    lemma_hex_roundtrip(salt);
    lemma_hex_ascii(digest);
    if spec_hex(theirs) == spec_hex(digest) {
        lemma_hex_roundtrip(theirs);
        lemma_hex_roundtrip(digest);
    }
}

proof fn lemma_no_dollar_lower_hex(s: Seq<char>)
    requires
        forall|i: int| 0 <= i < s.len() ==> is_lower_hex_char(#[trigger] s[i]),
    ensures
        !s.contains('$'),
{
    if s.contains('$') {
        let k = choose|k: int| 0 <= k < s.len() && s[k] == '$';
        assert(is_lower_hex_char(s[k]));
    }
}

proof fn lemma_no_dollar_digits(s: Seq<char>)
    requires
        all_digits(s),
    ensures
        !s.contains('$'),
{
    if s.contains('$') {
        let k = choose|k: int| 0 <= k < s.len() && s[k] == '$';
        assert(is_digit(s[k]));
    }
}

/// HMAC-SHA256 of the UTF-8 bytes of `data` under the UTF-8 bytes of `key`: a
/// function of its arguments alone.
pub uninterp spec fn spec_hmac_sha256(key: Seq<char>, data: Seq<char>) -> Seq<u8>;

/// `Hmac::<Sha256>::new_from_slice` (which takes a key of any length),
/// `update` and `finalize`. Claimed: the tag is the named function of key and
/// data, 32 bytes long.
#[verifier::external_body]
fn hmac_sha256(key: &str, data: &str) -> (r: Vec<u8>)
    ensures
        r@ == spec_hmac_sha256(key@, data@),
        r@.len() == 32,
{
    let mut mac = hmac::Hmac::<sha2::Sha256>::new_from_slice(key.as_bytes()).expect("hmac key");
    mac.update(data.as_bytes());
    mac.finalize().into_bytes().to_vec()
}

/// The URL-safe base64 alphabet: `A`-`Z`, `a`-`z`, `0`-`9`, `-`, `_`.
pub open spec fn is_b64url_char(c: char) -> bool {
    ('A' <= c && c <= 'Z') || ('a' <= c && c <= 'z') || ('0' <= c && c <= '9') || c == '-' || c
        == '_'
}

/// The character of a 6-bit value (0 to 63) in the URL-safe alphabet.
pub open spec fn b64url_digit(n: int) -> char {
    if n < 26 {
        (65 + n) as char
    } else if n < 52 {
        (97 + n - 26) as char
    } else if n < 62 {
        (48 + n - 52) as char
    } else if n == 62 {
        '-'
    } else {
        '_'
    }
}

/// Unpadded URL-safe base64 (RFC 4648, section 5) of some bytes: every
/// three bytes give four characters of six bits each, and a last one or two
/// bytes give two or three characters, the spare low bits zero.
pub open spec fn spec_b64url(b: Seq<u8>) -> Seq<char>
    decreases b.len(),
{
    if b.len() == 0 {
        Seq::empty()
    } else if b.len() == 1 {
        seq![b64url_digit(b[0] as int / 4), b64url_digit((b[0] as int % 4) * 16)]
    } else if b.len() == 2 {
        seq![
            b64url_digit(b[0] as int / 4),
            b64url_digit((b[0] as int % 4) * 16 + b[1] as int / 16),
            b64url_digit((b[1] as int % 16) * 4),
        ]
    } else {
        seq![
            b64url_digit(b[0] as int / 4),
            b64url_digit((b[0] as int % 4) * 16 + b[1] as int / 16),
            b64url_digit((b[1] as int % 16) * 4 + b[2] as int / 64),
            b64url_digit(b[2] as int % 64),
        ] + spec_b64url(b.subrange(3, b.len() as int))
    }
}

proof fn lemma_b64url_digit(n: int)
    requires
        0 <= n < 64,
    ensures
        is_b64url_char(b64url_digit(n)),
{
    if n < 26 {
        assert(((65 + n) as char) as int == 65 + n);
    } else if n < 52 {
        assert(((97 + n - 26) as char) as int == 97 + n - 26);
    } else if n < 62 {
        assert(((48 + n - 52) as char) as int == 48 + n - 52);
    }
}

/// Base64 text uses only the URL-safe alphabet, with no padding.
pub proof fn lemma_b64url_alphabet(b: Seq<u8>)
    ensures
        forall|i: int| 0 <= i < spec_b64url(b).len() ==> is_b64url_char(#[trigger] spec_b64url(b)[i]),
    decreases b.len(),
{
    let s = spec_b64url(b);
    if b.len() == 1 {
        lemma_b64url_digit(b[0] as int / 4);
        lemma_b64url_digit((b[0] as int % 4) * 16);
    } else if b.len() == 2 {
        lemma_b64url_digit(b[0] as int / 4);
        lemma_b64url_digit((b[0] as int % 4) * 16 + b[1] as int / 16);
        lemma_b64url_digit((b[1] as int % 16) * 4);
    } else if b.len() >= 3 {
        let d0 = b64url_digit(b[0] as int / 4);
        let d1 = b64url_digit((b[0] as int % 4) * 16 + b[1] as int / 16);
        let d2 = b64url_digit((b[1] as int % 16) * 4 + b[2] as int / 64);
        let d3 = b64url_digit(b[2] as int % 64);
        lemma_b64url_digit(b[0] as int / 4);
        lemma_b64url_digit((b[0] as int % 4) * 16 + b[1] as int / 16);
        lemma_b64url_digit((b[1] as int % 16) * 4 + b[2] as int / 64);
        lemma_b64url_digit(b[2] as int % 64);
        let rest = spec_b64url(b.subrange(3, b.len() as int));
        lemma_b64url_alphabet(b.subrange(3, b.len() as int));
        assert(s == seq![d0, d1, d2, d3] + rest);
        assert forall|i: int| 0 <= i < s.len() implies is_b64url_char(#[trigger] s[i]) by {
            if i >= 4 {
                assert(s[i] == rest[i - 4]);
            }
        }
    }
}

/// The encoded length of `n` bytes fits in a `usize` (else base64 panics).
pub open spec fn b64_len_fits(n: nat) -> bool {
    (n / 3) * 4 + (if n % 3 == 0 {
        0int
    } else if n % 3 == 1 {
        2int
    } else {
        3int
    }) <= usize::MAX
}

/// `base64::engine::general_purpose::URL_SAFE_NO_PAD.encode`. Claimed: the
/// text is the unpadded URL-safe base64 of the bytes as `spec_b64url`
/// writes it out.
#[verifier::external_body]
pub fn b64url(input: &[u8]) -> (r: String)
    requires
        b64_len_fits(input@.len()),
    ensures
        r@ == spec_b64url(input@),
{
    base64::engine::general_purpose::URL_SAFE_NO_PAD.encode(input)
}

pub open spec fn opt_bytes(o: Option<Vec<u8>>) -> Option<Seq<u8>> {
    match o {
        Some(v) => Some(v@),
        None => None,
    }
}

/// The bytes whose unpadded URL-safe base64 is `s`, `None` when `s` is the
/// encoding of no bytes (a character outside the alphabet, a length of one
/// more than a multiple of four, or spare bits that are not zero).
pub open spec fn spec_b64url_decode(s: Seq<char>) -> Option<Seq<u8>> {
    if exists|b: Seq<u8>| #[trigger] spec_b64url(b) == s {
        Some(choose|b: Seq<u8>| #[trigger] spec_b64url(b) == s)
    } else {
        None
    }
}

/// The code point of each URL-safe digit.
proof fn lemma_b64url_digit_value(n: int)
    requires
        0 <= n < 64,
    ensures
        b64url_digit(n) as int == (if n < 26 {
            65 + n
        } else if n < 52 {
            71 + n
        } else if n < 62 {
            n - 4
        } else if n == 62 {
            45
        } else {
            95
        }),
{
    if n < 26 {
        assert(((65 + n) as char) as int == 65 + n);
    } else if n < 52 {
        assert(((97 + n - 26) as char) as int == 97 + n - 26);
    } else if n < 62 {
        assert(((48 + n - 52) as char) as int == 48 + n - 52);
    }
}

proof fn lemma_b64url_digit_injective(m: int, n: int)
    requires
        0 <= m < 64,
        0 <= n < 64,
        b64url_digit(m) == b64url_digit(n),
    ensures
        m == n,
{
    lemma_b64url_digit_value(m);
    lemma_b64url_digit_value(n);
}

/// The length of the base64 text of `n` bytes.
pub open spec fn b64url_len(n: nat) -> nat {
    4 * (n / 3) + (if n % 3 == 0 {
        0nat
    } else if n % 3 == 1 {
        2nat
    } else {
        3nat
    })
}

pub proof fn lemma_b64url_len(b: Seq<u8>)
    ensures
        spec_b64url(b).len() == b64url_len(b.len()),
    decreases b.len(),
{
    if b.len() >= 3 {
        lemma_b64url_len(b.subrange(3, b.len() as int));
    }
}

/// Different bytes have different base64 texts.
pub proof fn lemma_b64url_injective(a: Seq<u8>, b: Seq<u8>)
    requires
        spec_b64url(a) == spec_b64url(b),
    ensures
        a == b,
    decreases a.len(),
{
    let s = spec_b64url(a);
    lemma_b64url_len(a);
    lemma_b64url_len(b);
    assert(a.len() == b.len());
    if a.len() == 0 {
        assert(a =~= b);
    } else if a.len() == 1 {
        assert(s[0] == b64url_digit(a[0] as int / 4) && s[0] == b64url_digit(b[0] as int / 4));
        lemma_b64url_digit_injective(a[0] as int / 4, b[0] as int / 4);
        assert(s[1] == b64url_digit((a[0] as int % 4) * 16));
        assert(s[1] == b64url_digit((b[0] as int % 4) * 16));
        lemma_b64url_digit_injective((a[0] as int % 4) * 16, (b[0] as int % 4) * 16);
        assert(a =~= b);
    } else if a.len() == 2 {
        assert(s[0] == b64url_digit(a[0] as int / 4) && s[0] == b64url_digit(b[0] as int / 4));
        lemma_b64url_digit_injective(a[0] as int / 4, b[0] as int / 4);
        assert(s[1] == b64url_digit((a[0] as int % 4) * 16 + a[1] as int / 16));
        assert(s[1] == b64url_digit((b[0] as int % 4) * 16 + b[1] as int / 16));
        lemma_b64url_digit_injective(
            (a[0] as int % 4) * 16 + a[1] as int / 16,
            (b[0] as int % 4) * 16 + b[1] as int / 16,
        );
        assert(s[2] == b64url_digit((a[1] as int % 16) * 4));
        assert(s[2] == b64url_digit((b[1] as int % 16) * 4));
        lemma_b64url_digit_injective((a[1] as int % 16) * 4, (b[1] as int % 16) * 4);
        assert(a =~= b);
    } else {
        let ra = a.subrange(3, a.len() as int);
        let rb = b.subrange(3, b.len() as int);
        let ha = seq![
            b64url_digit(a[0] as int / 4),
            b64url_digit((a[0] as int % 4) * 16 + a[1] as int / 16),
            b64url_digit((a[1] as int % 16) * 4 + a[2] as int / 64),
            b64url_digit(a[2] as int % 64),
        ];
        let hb = seq![
            b64url_digit(b[0] as int / 4),
            b64url_digit((b[0] as int % 4) * 16 + b[1] as int / 16),
            b64url_digit((b[1] as int % 16) * 4 + b[2] as int / 64),
            b64url_digit(b[2] as int % 64),
        ];
        assert(s == ha + spec_b64url(ra));
        assert(s == hb + spec_b64url(rb));
        assert(ha =~= s.subrange(0, 4));
        assert(hb =~= s.subrange(0, 4));
        assert(ha[0] == hb[0] && ha[1] == hb[1] && ha[2] == hb[2] && ha[3] == hb[3]);
        lemma_b64url_digit_injective(a[0] as int / 4, b[0] as int / 4);
        lemma_b64url_digit_injective(
            (a[0] as int % 4) * 16 + a[1] as int / 16,
            (b[0] as int % 4) * 16 + b[1] as int / 16,
        );
        lemma_b64url_digit_injective(
            (a[1] as int % 16) * 4 + a[2] as int / 64,
            (b[1] as int % 16) * 4 + b[2] as int / 64,
        );
        lemma_b64url_digit_injective(a[2] as int % 64, b[2] as int % 64);
        assert(spec_b64url(ra) =~= s.subrange(4, s.len() as int));
        assert(spec_b64url(rb) =~= s.subrange(4, s.len() as int));
        lemma_b64url_injective(ra, rb);
        assert(a =~= seq![a[0], a[1], a[2]] + ra);
        assert(b =~= seq![b[0], b[1], b[2]] + rb);
    }
}

/// Decoding the base64 text of some bytes gives those bytes back.
pub proof fn lemma_b64url_roundtrip(b: Seq<u8>)
    ensures
        spec_b64url_decode(spec_b64url(b)) == Some(b),
{
    let s = spec_b64url(b);
    assert(exists|x: Seq<u8>| #[trigger] spec_b64url(x) == s);
    let c = choose|x: Seq<u8>| #[trigger] spec_b64url(x) == s;
    lemma_b64url_injective(c, b);
}

/// `URL_SAFE_NO_PAD.decode`, the error mapped to `None`. Claimed: the
/// decoder accepts exactly the canonical unpadded URL-safe base64 texts and
/// gives back the bytes they encode.
#[verifier::external_body]
fn b64url_decode(s: &str) -> (r: Option<Vec<u8>>)
    ensures
        opt_bytes(r) == spec_b64url_decode(s@),
{
    base64::engine::general_purpose::URL_SAFE_NO_PAD.decode(s).ok()
}

/// `String::from_utf8`, the error mapped to `None`: text exactly for valid
/// UTF-8, holding the decoded characters.
#[verifier::external_body]
fn string_from_utf8(b: Vec<u8>) -> (r: Option<String>)
    ensures
        r is Some <==> valid_utf8(b@),
        r matches Some(s) ==> s@ == decode_utf8(b@),
{
    String::from_utf8(b).ok()
}

/// What a token payload's JSON text holds: `None` when it is not JSON,
/// else its `sid` field when that is a string and its `exp` field when that
/// is an integer within `i64`. A function of the text alone.
pub uninterp spec fn spec_json_claims(text: Seq<char>) -> Option<(Option<Seq<char>>, Option<i64>)>;

pub open spec fn claims_view(r: Option<(Option<String>, Option<i64>)>) -> Option<(Option<Seq<char>>, Option<i64>)> {
    match r {
        None => None,
        Some((s, e)) => Some((crate::db::opt_chars(s), e)),
    }
}

/// `serde_json::from_str::<Value>`, then `get("sid")` with `as_str` and
/// `get("exp")` with `as_i64`. Claimed: the result is the named function of
/// the text, and the payload that `sign_token_at` writes (for a session id
/// that needs no escaping) reads back as that id and expiry.
#[verifier::external_body]
fn json_claims(text: &str) -> (r: Option<(Option<String>, Option<i64>)>)
    ensures
        claims_view(r) == spec_json_claims(text@),
        forall|sid: Seq<char>, iat: i64, exp: i64|
            #[trigger] jwt_payload(sid, iat as int, exp as int) == text@ && plain_json_text(sid)
                ==> claims_view(r) == Some((Some(sid), Some(exp))),
{
    let v: serde_json::Value = serde_json::from_str(text).ok()?;
    let sid = match v.get("sid") {
        Some(x) => x.as_str().map(String::from),
        None => None,
    };
    let exp = match v.get("exp") {
        Some(x) => x.as_i64(),
        None => None,
    };
    Some((sid, exp))
}

/// HMAC-SHA256 of `data` under `secret`, as unpadded URL-safe base64.
pub fn hmac_sha256_b64url(secret: &str, data: &str) -> (r: String)
    ensures
        r@ == spec_b64url(spec_hmac_sha256(secret@, data@)),
        forall|i: int| 0 <= i < r@.len() ==> is_b64url_char(#[trigger] r@[i]),
{
    let tag = hmac_sha256(secret, data);
    proof {
        lemma_b64url_alphabet(tag@);
    }
    b64url(&tag)
}

pub open spec fn jwt_header() -> Seq<char> {
    "{\"alg\":\"HS256\",\"typ\":\"JWT\"}"@
}

/// `{"sid":"<sid>","iat":<iat>,"exp":<exp>}`.
pub open spec fn jwt_payload(sid: Seq<char>, iat: int, exp: int) -> Seq<char> {
    "{\"sid\":\""@ + sid + "\",\"iat\":"@ + fmt_int(iat) + ",\"exp\":"@ + fmt_int(exp) + "}"@
}

/// `header.payload` of an HS256 token.
pub open spec fn jwt_data(sid: Seq<char>, iat: int, exp: int) -> Seq<char> {
    spec_b64url(encode_utf8(jwt_header())) + seq!['.'] + spec_b64url(
        encode_utf8(jwt_payload(sid, iat, exp)),
    )
}

/// Text that stands in a JSON string as it is: no quote, no backslash, no
/// control character.
pub open spec fn plain_json_text(s: Seq<char>) -> bool {
    forall|i: int| 0 <= i < s.len() ==> #[trigger] s[i] != '"' && s[i] != '\\' && s[i] >= ' '
}

/// The three parts of the token issued for session `sid` at `now` for `ttl`
/// seconds under `secret`: header, payload and signature.
pub open spec fn token_parts(secret: Seq<char>, sid: Seq<char>, ttl: int, now: int) -> Seq<
    Seq<char>,
> {
    let h = spec_b64url(encode_utf8(jwt_header()));
    let p = spec_b64url(encode_utf8(jwt_payload(sid, now, now + ttl)));
    seq![h, p, spec_b64url(spec_hmac_sha256(secret, h + seq!['.'] + p))]
}

/// `token` is the one issued for session `sid` at `now` for `ttl` seconds:
/// its dot separated parts are those of `token_parts`.
pub open spec fn token_issued(secret: Seq<char>, token: Seq<char>, sid: Seq<char>, ttl: int, now: int) -> bool {
    split(token, '.') == token_parts(secret, sid, ttl, now)
}

/// The conditions under which a token issued for `sid` at `iat` for `ttl`
/// seconds is accepted at `now`: the id needs no JSON escaping, the times fit,
/// and it has not expired.
pub open spec fn accepted_when(secret: Seq<char>, token: Seq<char>, now: int, sid: Seq<char>, ttl: int, iat: int) -> bool {
    &&& token_issued(secret, token, sid, ttl, iat)
    &&& plain_json_text(sid)
    &&& i64::MIN <= iat <= i64::MAX
    &&& i64::MIN <= iat + ttl <= i64::MAX
    &&& now <= iat + ttl
}

/// The token that `sign_token` issues at time `now`.
pub open spec fn spec_sign_token(secret: Seq<char>, sid: Seq<char>, ttl: int, now: int) -> Seq<
    char,
> {
    let data = jwt_data(sid, now, now + ttl);
    data + seq!['.'] + spec_b64url(spec_hmac_sha256(secret, data))
}

/// The UTF-8 form of the payload is short enough to encode.
pub open spec fn sign_token_fits(sid: Seq<char>, ttl: int, now: int) -> bool {
    &&& fits_i64_sum(now, ttl)
    &&& b64_len_fits(encode_utf8(jwt_payload(sid, now, now + ttl)).len())
}

pub open spec fn fits_i64_sum(a: int, b: int) -> bool {
    i64::MIN <= a + b <= i64::MAX
}

/// Bytes of the text `s`.
fn utf8_bytes(s: &String) -> (r: Vec<u8>)
    ensures
        r@ == encode_utf8(s@),
{
    let b = s.as_str().as_bytes();
    let mut r: Vec<u8> = Vec::new();
    let mut i: usize = 0;
    while i < b.len()
        invariant
            i <= b.len(),
            b@ == encode_utf8(s@),
            r@ == b@.take(i as int),
        decreases b.len() - i,
    {
        r.push(b[i]);
        assert(r@ =~= b@.take(i as int + 1));
        i = i + 1;
    }
    assert(b@.take(b@.len() as int) =~= b@);
    r
}

/// The token has three dot-separated parts, the last being the HMAC of the
/// first two (joined by the dot) under `secret`.
pub open spec fn token_signature_ok(secret: Seq<char>, token: Seq<char>) -> bool {
    let parts = split(token, '.');
    parts.len() == 3 && parts[2] == spec_b64url(
        spec_hmac_sha256(secret, parts[0] + seq!['.'] + parts[1]),
    )
}

proof fn lemma_no_dot(s: Seq<char>)
    requires
        forall|i: int| 0 <= i < s.len() ==> is_b64url_char(#[trigger] s[i]),
    ensures
        !s.contains('.'),
{
    if s.contains('.') {
        let k = choose|k: int| 0 <= k < s.len() && s[k] == '.';
        assert(is_b64url_char(s[k]));
    }
}

/// HS256 JWT for session `session_id`, issued at `now` and expiring at
/// `now + ttl_seconds`; its signature checks under the same secret.
pub fn sign_token_at(secret: &str, session_id: &str, ttl_seconds: i64, now: i64) -> (r: String)
    requires
        sign_token_fits(session_id@, ttl_seconds as int, now as int),
    ensures
        r@ == spec_sign_token(secret@, session_id@, ttl_seconds as int, now as int),
        token_signature_ok(secret@, r@),
        token_issued(secret@, r@, session_id@, ttl_seconds as int, now as int),
{
    let header = "{\"alg\":\"HS256\",\"typ\":\"JWT\"}";
    proof {
        reveal_strlit("{\"alg\":\"HS256\",\"typ\":\"JWT\"}");
    }
    assert(b64_len_fits(encode_utf8(header@).len())) by {
        assert(is_ascii_chars(header@));
        is_ascii_chars_encode_utf8(header@);
    }
    let mut payload: Vec<char> = Vec::new();
    push_str(&mut payload, "{\"sid\":\"");
    push_str(&mut payload, session_id);
    push_str(&mut payload, "\",\"iat\":");
    push_i64(&mut payload, now);
    push_str(&mut payload, ",\"exp\":");
    push_i64(&mut payload, now + ttl_seconds);
    push_str(&mut payload, "}");
    assert(payload@ =~= jwt_payload(session_id@, now as int, now + ttl_seconds));
    let payload_text = string_of(&payload);
    let payload_bytes = utf8_bytes(&payload_text);
    let h = b64url(header.as_bytes());
    let p = b64url(&payload_bytes);
    let mut data: Vec<char> = Vec::new();
    push_str(&mut data, h.as_str());
    data.push('.');
    push_str(&mut data, p.as_str());
    assert(header@ == jwt_header());
    assert(h@ == spec_b64url(encode_utf8(jwt_header())));
    assert(p@ == spec_b64url(encode_utf8(jwt_payload(session_id@, now as int, now + ttl_seconds))));
    assert(data@ =~= jwt_data(session_id@, now as int, now + ttl_seconds));
    let data_text = string_of(&data);
    let sig = hmac_sha256_b64url(secret, data_text.as_str());
    let mut token = data;
    token.push('.');
    push_str(&mut token, sig.as_str());
    assert(token@ =~= spec_sign_token(secret@, session_id@, ttl_seconds as int, now as int));
    proof {
        lemma_b64url_alphabet(encode_utf8(jwt_header()));
        lemma_b64url_alphabet(encode_utf8(jwt_payload(session_id@, now as int, now + ttl_seconds)));
        lemma_no_dot(h@);
        lemma_no_dot(p@);
        lemma_no_dot(sig@);
        assert(token@ =~= h@ + seq!['.'] + p@ + seq!['.'] + sig@);
        lemma_split_concat(h@ + seq!['.'] + p@, sig@, '.');
        lemma_split_concat(h@, p@, '.');
        lemma_split_none(h@, '.');
        lemma_split_none(p@, '.');
        lemma_split_none(sig@, '.');
        assert(split(token@, '.') =~= seq![h@, p@, sig@]);
    }
    string_of(&token)
}

/// HS256 JWT for session `session_id` that expires `ttl_seconds` from now.
pub fn sign_token(secret: &str, session_id: &str, ttl_seconds: i64) -> (r: String)
    requires
        forall|now: int| 0 <= now <= max_now() ==> sign_token_fits(session_id@, ttl_seconds as int, now),
    ensures
        exists|now: int|
            0 <= now <= max_now() && r@ == spec_sign_token(secret@, session_id@, ttl_seconds as int, now),
        token_signature_ok(secret@, r@),
{
    let now = now_ts();
    sign_token_at(secret, session_id, ttl_seconds, now)
}

/// The session id and expiry of `token` under `secret` at time `now`, or
/// `None` when the signature, the encoding or the claims do not check out or
/// the token has expired.
pub open spec fn spec_verify_token(secret: Seq<char>, token: Seq<char>, now: int) -> Option<(Seq<char>, i64)> {
    let parts = split(token, '.');
    if !token_signature_ok(secret, token) {
        None
    } else {
        match spec_b64url_decode(parts[1]) {
            None => None,
            Some(bytes) => if !valid_utf8(bytes) {
                None
            } else {
                match spec_json_claims(decode_utf8(bytes)) {
                    Some((Some(sid), Some(exp))) => if exp < now {
                        None
                    } else {
                        Some((sid, exp))
                    },
                    _ => None,
                }
            },
        }
    }
}

/// What an accepted token's parts are.
proof fn lemma_accepted_parts(
    secret: Seq<char>,
    token: Seq<char>,
    now: int,
    sid: Seq<char>,
    ttl: int,
    iat: int,
)
    requires
        accepted_when(secret, token, now, sid, ttl, iat),
    ensures
        split(token, '.').len() == 3,
        split(token, '.')[2] == spec_b64url(
            spec_hmac_sha256(secret, split(token, '.')[0] + seq!['.'] + split(token, '.')[1]),
        ),
        split(token, '.')[1] == spec_b64url(encode_utf8(jwt_payload(sid, iat, iat + ttl))),
        jwt_payload(sid, (iat as i64) as int, ((iat + ttl) as i64) as int) == jwt_payload(
            sid,
            iat,
            iat + ttl,
        ),
{
}

/// `verify_token` at time `now`. A token that `sign_token_at` issued is
/// accepted, with its session id and expiry, until it expires (where its
/// session id needs no JSON escaping).
pub fn verify_token_at(secret: &str, token: &str, now: i64) -> (r: Option<(String, i64)>)
    ensures
        r matches Some((sid, exp)) ==> spec_verify_token(secret@, token@, now as int) == Some(
            (sid@, exp),
        ),
        r is None ==> spec_verify_token(secret@, token@, now as int) is None,
        forall|sid: Seq<char>, ttl: int, iat: int|
            #[trigger] accepted_when(secret@, token@, now as int, sid, ttl, iat) ==> (r matches Some(
                (s, e),
            ) && s@ == sid && e == iat + ttl),
{
    let chars = chars_of(token);
    let parts = split_chars(&chars, '.');
    if parts.len() != 3 {
        assert forall|sid: Seq<char>, ttl: int, iat: int|
            #[trigger] accepted_when(secret@, token@, now as int, sid, ttl, iat) implies false by {
            lemma_accepted_parts(secret@, token@, now as int, sid, ttl, iat);
        }
        return None;
    }
    assert(parts.deep_view()[0] =~= parts[0]@);
    assert(parts.deep_view()[1] =~= parts[1]@);
    assert(parts.deep_view()[2] =~= parts[2]@);
    let mut data: Vec<char> = Vec::new();
    push_all(&mut data, parts[0].as_slice());
    data.push('.');
    push_all(&mut data, parts[1].as_slice());
    let data_text = string_of(&data);
    let expected = hmac_sha256_b64url(secret, data_text.as_str());
    let given = string_of(parts[2].as_slice());
    let same = timing_safe_eq(given.as_str().as_bytes(), expected.as_str().as_bytes());
    proof {
        encode_utf8_decode_utf8(given@);
        encode_utf8_decode_utf8(expected@);
        assert(data@ =~= parts[0]@ + seq!['.'] + parts[1]@);
    }
    if !same {
        assert forall|sid: Seq<char>, ttl: int, iat: int|
            #[trigger] accepted_when(secret@, token@, now as int, sid, ttl, iat) implies false by {
            lemma_accepted_parts(secret@, token@, now as int, sid, ttl, iat);
        }
        return None;
    }
    let payload_text = string_of(parts[1].as_slice());
    let decoded = b64url_decode(payload_text.as_str());
    proof {
        assert forall|sid: Seq<char>, ttl: int, iat: int|
            #[trigger] accepted_when(secret@, token@, now as int, sid, ttl, iat) implies opt_bytes(
            decoded,
        ) == Some(encode_utf8(jwt_payload(sid, iat, iat + ttl))) by {
            lemma_accepted_parts(secret@, token@, now as int, sid, ttl, iat);
            assert(spec_b64url(encode_utf8(jwt_payload(sid, iat, iat + ttl))) == payload_text@);
            lemma_b64url_roundtrip(encode_utf8(jwt_payload(sid, iat, iat + ttl)));
        }
    }
    let bytes = match decoded {
        Some(b) => b,
        None => {
            return None;
        },
    };
    let ghost bv = bytes@;
    let text = match string_from_utf8(bytes) {
        Some(t) => t,
        None => {
            assert forall|sid: Seq<char>, ttl: int, iat: int|
                #[trigger] accepted_when(secret@, token@, now as int, sid, ttl, iat) implies false by {
                encode_utf8_valid_utf8(jwt_payload(sid, iat, iat + ttl));
            }
            return None;
        },
    };
    proof {
        assert forall|sid: Seq<char>, ttl: int, iat: int|
            #[trigger] accepted_when(secret@, token@, now as int, sid, ttl, iat) implies jwt_payload(
            sid,
            (iat as i64) as int,
            ((iat + ttl) as i64) as int,
        ) == text@ by {
            lemma_accepted_parts(secret@, token@, now as int, sid, ttl, iat);
            encode_utf8_decode_utf8(jwt_payload(sid, iat, iat + ttl));
        }
    }
    let claims = json_claims(text.as_str());
    proof {
        assert forall|s: Seq<char>, ttl: int, iat: int|
            #[trigger] accepted_when(secret@, token@, now as int, s, ttl, iat) implies claims_view(
            claims,
        ) == Some((Some(s), Some(((iat + ttl) as i64)))) by {
            assert(jwt_payload(s, (iat as i64) as int, ((iat + ttl) as i64) as int) == text@);
        }
    }
    let (sid, exp) = match claims {
        Some((Some(sid), Some(exp))) => (sid, exp),
        _ => {
            return None;
        },
    };
    if exp < now {
        return None;
    }
    Some((sid, exp))
}

/// The session id and expiry of a valid, unexpired token.
pub fn verify_token(secret: &str, token: &str) -> (r: Option<(String, i64)>)
    ensures
        exists|now: int|
            0 <= now <= max_now() && (match r {
                Some((sid, exp)) => spec_verify_token(secret@, token@, now) == Some((sid@, exp)),
                None => spec_verify_token(secret@, token@, now) is None,
            }),
{
    let now = now_ts();
    verify_token_at(secret, token, now)
}

/// A token is accepted only if its last part is the HMAC of the first two
/// under the secret, and only until its expiry.
pub proof fn lemma_verified_token_is_signed(secret: Seq<char>, token: Seq<char>, now: int)
    ensures
        spec_verify_token(secret, token, now) matches Some((sid, exp)) ==> token_signature_ok(
            secret,
            token,
        ) && exp >= now,
{
}

/// The 16 bytes with the UUID version (4) and variant (RFC 4122) bits set.
pub open spec fn uuid_bytes(b: Seq<u8>) -> Seq<u8> {
    b.update(6, (b[6] & 0x0f) | 0x40).update(8, (b[8] & 0x3f) | 0x80)
}

/// `xxxxxxxx-xxxx-4xxx-Nxxx-xxxxxxxxxxxx` from 16 bytes.
pub open spec fn spec_uuid(b: Seq<u8>) -> Seq<char> {
    let h = spec_hex(uuid_bytes(b));
    h.subrange(0, 8) + seq!['-'] + h.subrange(8, 12) + seq!['-'] + h.subrange(12, 16) + seq!['-']
        + h.subrange(16, 20) + seq!['-'] + h.subrange(20, 32)
}

/// A version 4 UUID text from 16 bytes; its version digit is `4` and its
/// variant digit one of `8`, `9`, `a`, `b`.
pub fn uuid_v4_from_bytes(bytes: &[u8]) -> (r: String)
    requires
        bytes@.len() == 16,
    ensures
        r@ == spec_uuid(bytes@),
        r@.len() == 36,
        r@[14] == '4',
        r@[19] == '8' || r@[19] == '9' || r@[19] == 'a' || r@[19] == 'b',
{
    let mut b: Vec<u8> = Vec::new();
    let mut i: usize = 0;
    while i < 16
        invariant
            i <= 16,
            bytes@.len() == 16,
            b@ == bytes@.take(i as int),
        decreases 16 - i,
    {
        b.push(bytes[i]);
        assert(b@ =~= bytes@.take(i as int + 1));
        i = i + 1;
    }
    assert(b@ =~= bytes@);
    let x6 = b[6];
    let x8 = b[8];
    let b6 = (x6 & 0x0f) | 0x40;
    let b8 = (x8 & 0x3f) | 0x80;
    b.set(6, b6);
    b.set(8, b8);
    assert(b@ =~= uuid_bytes(bytes@));
    let mut hex: Vec<char> = Vec::new();
    push_hex(&mut hex, &b);
    proof {
        lemma_spec_hex_shape(b@);
        assert(hex@ =~= spec_hex(b@));
        assert(b6 / 16 == 4) by (bit_vector)
            requires
                b6 == (x6 & 0x0f) | 0x40,
        ;
        assert(8 <= b8 / 16 <= 11) by (bit_vector)
            requires
                b8 == (x8 & 0x3f) | 0x80,
        ;
        assert(b@[6] == b6);
        assert(b@[8] == b8);
        assert(spec_hex(b@)[2 * 6int] == hex_digit(b@[6] as int / 16));
        assert(spec_hex(b@)[2 * 8int] == hex_digit(b@[8] as int / 16));
    }
    let mut out: Vec<char> = Vec::new();
    push_all(&mut out, sub_chars(&hex, 0, 8).as_slice());
    out.push('-');
    push_all(&mut out, sub_chars(&hex, 8, 12).as_slice());
    out.push('-');
    push_all(&mut out, sub_chars(&hex, 12, 16).as_slice());
    out.push('-');
    push_all(&mut out, sub_chars(&hex, 16, 20).as_slice());
    out.push('-');
    push_all(&mut out, sub_chars(&hex, 20, 32).as_slice());
    assert(out@ =~= spec_uuid(bytes@));
    string_of(&out)
}

/// A UUID text needs no JSON escaping.
pub proof fn lemma_uuid_plain(b: Seq<u8>)
    requires
        b.len() == 16,
    ensures
        plain_json_text(spec_uuid(b)),
{
    let h = spec_hex(uuid_bytes(b));
    lemma_spec_hex_shape(uuid_bytes(b));
    let u = spec_uuid(b);
    assert forall|i: int| 0 <= i < u.len() implies #[trigger] u[i] != '"' && u[i] != '\\' && u[i]
        >= ' ' by {
        if i < 8 {
            assert(u[i] == h[i]);
        } else if i == 8 || i == 13 || i == 18 || i == 23 {
        } else if i < 13 {
            assert(u[i] == h[i - 1]);
        } else if i < 18 {
            assert(u[i] == h[i - 2]);
        } else if i < 23 {
            assert(u[i] == h[i - 3]);
        } else {
            assert(u[i] == h[i - 4]);
        }
    }
}

/// A random version 4 UUID (session ids).
pub fn uuid_v4() -> (r: String)
    ensures
        exists|b: Seq<u8>| b.len() == 16 && r@ == spec_uuid(b),
        r@.len() == 36,
{
    let b = random_bytes(16);
    uuid_v4_from_bytes(&b)
}

} // verus!
