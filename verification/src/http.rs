//! API errors, request body fields and percent-decoding.

use vstd::prelude::*;
use vstd::utf8::{
    decode_utf8, encode_scalar, encode_utf8, encode_utf8_decode_utf8, encode_utf8_valid_utf8,
    is_continuation_byte, valid_utf8,
};

use crate::password::pair_value;
use crate::text::{chars_of, chars_eq, string_of, trim, trim_chars};

verus! {

/// An error answer: HTTP status, machine-readable code, human message.
#[derive(Clone, Debug)]
pub struct ApiError {
    pub status: u16,
    pub code: &'static str,
    pub message: String,
}

pub fn api_err(status: u16, code: &'static str, message: String) -> (e: ApiError)
    ensures
        e.status == status,
        e.code@ == code@,
        e.message@ == message@,
{
    ApiError { status, code, message }
}

/// The error with the given status and code.
pub open spec fn is_err(e: ApiError, status: u16, code: Seq<char>) -> bool {
    e.status == status && e.code@ == code
}

/// A JSON value of a request body field, as far as the service reads it.
#[derive(Clone, Debug)]
pub enum FieldValue {
    Str(String),
    Null,
    /// An array; each element is `Some` text where it is a string.
    List(Vec<Option<String>>),
    /// A number, boolean or object.
    Other,
}

/// The top-level fields of a JSON request body (none when the body is not an
/// object).
#[derive(Clone, Debug)]
pub struct JsonBody {
    pub fields: Vec<(String, FieldValue)>,
}

impl JsonBody {
    /// No key occurs twice.
    pub open spec fn wf(&self) -> bool {
        forall|i: int, j: int|
            0 <= i < j < self.fields@.len() ==> #[trigger] self.fields@[i].0@ != #[trigger] self.fields@[j].0@
    }

    /// The value of field `key`, if there is one.
    pub open spec fn get(&self, key: Seq<char>) -> Option<FieldValue> {
        if exists|i: int| 0 <= i < self.fields@.len() && #[trigger] self.fields@[i].0@ == key {
            let i = choose|i: int| 0 <= i < self.fields@.len() && #[trigger] self.fields@[i].0@ == key;
            Some(self.fields@[i].1)
        } else {
            None
        }
    }

    /// The text of field `key` when it is a string.
    pub open spec fn get_str(&self, key: Seq<char>) -> Option<Seq<char>> {
        match self.get(key) {
            Some(FieldValue::Str(s)) => Some(s@),
            _ => None,
        }
    }

    /// Index of field `key`.
    pub fn find(&self, key: &str) -> (r: Option<usize>)
        requires
            self.wf(),
        ensures
            r matches Some(i) ==> i < self.fields@.len() && self.fields@[i as int].0@ == key@
                && self.get(key@) == Some(self.fields@[i as int].1),
            r is None ==> self.get(key@) is None,
    {
        let k = chars_of(key);
        let mut i: usize = 0;
        while i < self.fields.len()
            invariant
                i <= self.fields@.len(),
                k@ == key@,
                self.wf(),
                forall|j: int| 0 <= j < i ==> self.fields@[j].0@ != key@,
            decreases self.fields@.len() - i,
        {
            let name = chars_of(self.fields[i].0.as_str());
            if chars_eq(name.as_slice(), k.as_slice()) {
                proof {
                    let c = choose|c: int|
                        0 <= c < self.fields@.len() && #[trigger] self.fields@[c].0@ == key@;
                    if c < i {
                    } else if c > i {
                        assert(self.fields@[i as int].0@ != self.fields@[c].0@);
                    }
                }
                return Some(i);
            }
            i = i + 1;
        }
        None
    }

    /// The text of field `key` when it is a string.
    pub fn get_string(&self, key: &str) -> (r: Option<String>)
        requires
            self.wf(),
        ensures
            r matches Some(s) ==> self.get_str(key@) == Some(s@),
            r is None ==> self.get_str(key@) is None,
    {
        match self.find(key) {
            Some(i) => match &self.fields[i].1 {
                FieldValue::Str(s) => Some(s.clone()),
                _ => None,
            },
            None => None,
        }
    }
}

/// The text of a value when it is a string.
pub open spec fn str_value(v: FieldValue) -> Option<Seq<char>> {
    match v {
        FieldValue::Str(s) => Some(s@),
        _ => None,
    }
}

/// The string items of an array, in order; other items are skipped.
pub open spec fn string_items(items: Seq<Option<String>>) -> Seq<Seq<char>>
    decreases items.len(),
{
    if items.len() == 0 {
        Seq::<Seq<char>>::empty()
    } else {
        let r = string_items(items.drop_last());
        match items.last() {
            Some(s) => r.push(s@),
            None => r,
        }
    }
}

/// The string items of field `key`, `None` when the field is not an array.
pub open spec fn body_list(body: JsonBody, key: Seq<char>) -> Option<Seq<Seq<char>>> {
    match body.get(key) {
        Some(FieldValue::List(items)) => Some(string_items(items@)),
        _ => None,
    }
}

/// The string items of an array.
pub fn strings_of(items: &Vec<Option<String>>) -> (r: Vec<String>)
    ensures
        r.deep_view() == string_items(items@),
{
    let mut out: Vec<String> = Vec::new();
    let mut k: usize = 0;
    while k < items.len()
        invariant
            k <= items@.len(),
            out.deep_view() == string_items(items@.take(k as int)),
        decreases items@.len() - k,
    {
        assert(items@.take(k as int + 1).drop_last() =~= items@.take(k as int));
        let ghost before = out.deep_view();
        match &items[k] {
            Some(s) => {
                out.push(s.clone());
                assert(out.deep_view() =~= before.push(s@));
            },
            None => {},
        }
        k = k + 1;
    }
    assert(items@.take(items@.len() as int) =~= items@);
    out
}

/// The string items of the array field `key`.
pub fn body_strings(body: &JsonBody, key: &str) -> (r: Option<Vec<String>>)
    requires
        body.wf(),
    ensures
        match body_list(*body, key@) {
            Some(l) => r matches Some(v) && v.deep_view() == l,
            None => r is None,
        },
{
    match body.find(key) {
        Some(i) => match &body.fields[i].1 {
            FieldValue::List(items) => Some(strings_of(items)),
            _ => None,
        },
        None => None,
    }
}

/// The value is a string that is not blank.
pub open spec fn nonblank(o: Option<Seq<char>>) -> bool {
    match o {
        Some(s) => trim(s).len() > 0,
        None => false,
    }
}

/// The first of `keys` whose field is a string that is not blank, trimmed;
/// failing that the first string field, trimmed; failing that `""`.
pub open spec fn spec_body_str(body: JsonBody, keys: Seq<&str>) -> Seq<char> {
    if exists|i: int|
        0 <= i < keys.len() && nonblank(#[trigger] body.get_str(keys[i]@)) {
        let i = choose|i: int|
            0 <= i < keys.len() && nonblank(#[trigger] body.get_str(keys[i]@)) && forall|j: int|
                0 <= j < i ==> !nonblank(body.get_str(keys[j]@));
        trim(body.get_str(keys[i]@)->0)
    } else if exists|i: int| 0 <= i < keys.len() && (#[trigger] body.get_str(keys[i]@)) is Some {
        let i = choose|i: int|
            0 <= i < keys.len() && (#[trigger] body.get_str(keys[i]@)) is Some && forall|j: int|
                0 <= j < i ==> body.get_str(keys[j]@) is None;
        trim(body.get_str(keys[i]@)->0)
    } else {
        Seq::<char>::empty()
    }
}

/// The first of `keys` whose field is a string, untrimmed (passwords);
/// failing that `""`.
pub open spec fn spec_body_raw(body: JsonBody, keys: Seq<&str>) -> Seq<char> {
    if exists|i: int| 0 <= i < keys.len() && (#[trigger] body.get_str(keys[i]@)) is Some {
        let i = choose|i: int|
            0 <= i < keys.len() && (#[trigger] body.get_str(keys[i]@)) is Some && forall|j: int|
                0 <= j < i ==> body.get_str(keys[j]@) is None;
        body.get_str(keys[i]@)->0
    } else {
        Seq::<char>::empty()
    }
}

proof fn lemma_first_nonblank(body: JsonBody, keys: Seq<&str>, i: int)
    requires
        0 <= i < keys.len(),
        nonblank(body.get_str(keys[i]@)),
        forall|j: int| 0 <= j < i ==> !nonblank(#[trigger] body.get_str(keys[j]@)),
    ensures
        spec_body_str(body, keys) == trim(body.get_str(keys[i]@)->0),
{
    let w = choose|w: int|
        0 <= w < keys.len() && nonblank(#[trigger] body.get_str(keys[w]@)) && forall|j: int|
            0 <= j < w ==> !nonblank(body.get_str(keys[j]@));
    assert(w == i) by {
        if w > i {
            assert(nonblank(body.get_str(keys[i]@)));
        } else if w < i {
            assert(!nonblank(body.get_str(keys[w]@)));
        }
    }
}

proof fn lemma_first_some(body: JsonBody, keys: Seq<&str>, k: int)
    requires
        0 <= k < keys.len(),
        body.get_str(keys[k]@) is Some,
        forall|j: int| 0 <= j < keys.len() ==> !nonblank(#[trigger] body.get_str(keys[j]@)),
        forall|j: int| 0 <= j < k ==> (#[trigger] body.get_str(keys[j]@)) is None,
    ensures
        spec_body_str(body, keys) == trim(body.get_str(keys[k]@)->0),
        spec_body_raw(body, keys) == body.get_str(keys[k]@)->0,
{
    let w = choose|w: int|
        0 <= w < keys.len() && (#[trigger] body.get_str(keys[w]@)) is Some && forall|j: int|
            0 <= j < w ==> body.get_str(keys[j]@) is None;
    assert(w == k) by {
        if w > k {
            assert(body.get_str(keys[k]@) is Some);
        } else if w < k {
            assert(body.get_str(keys[w]@) is None);
        }
    }
}

proof fn lemma_first_some_raw(body: JsonBody, keys: Seq<&str>, k: int)
    requires
        0 <= k < keys.len(),
        body.get_str(keys[k]@) is Some,
        forall|j: int| 0 <= j < k ==> (#[trigger] body.get_str(keys[j]@)) is None,
    ensures
        spec_body_raw(body, keys) == body.get_str(keys[k]@)->0,
{
    let w = choose|w: int|
        0 <= w < keys.len() && (#[trigger] body.get_str(keys[w]@)) is Some && forall|j: int|
            0 <= j < w ==> body.get_str(keys[j]@) is None;
    assert(w == k) by {
        if w > k {
            assert(body.get_str(keys[k]@) is Some);
        } else if w < k {
            assert(body.get_str(keys[w]@) is None);
        }
    }
}

/// The first non-blank string among the fields `keys`, trimmed.
pub fn body_str(body: &JsonBody, keys: &[&str]) -> (r: String)
    requires
        body.wf(),
    ensures
        r@ == spec_body_str(*body, keys@),
{
    let mut i: usize = 0;
    while i < keys.len()
        invariant
            i <= keys@.len(),
            body.wf(),
            forall|j: int| 0 <= j < i ==> !nonblank(#[trigger] body.get_str(keys@[j]@)),
        decreases keys@.len() - i,
    {
        match body.get_string(keys[i]) {
            Some(s) => {
                let c = chars_of(s.as_str());
                let t = trim_chars(&c);
                if t.len() > 0 {
                    proof {
                        lemma_first_nonblank(*body, keys@, i as int);
                    }
                    return string_of(&t);
                }
            },
            None => {},
        }
        i = i + 1;
    }
    let mut k: usize = 0;
    while k < keys.len()
        invariant
            k <= keys@.len(),
            body.wf(),
            forall|j: int| 0 <= j < keys@.len() ==> !nonblank(#[trigger] body.get_str(keys@[j]@)),
            forall|j: int| 0 <= j < k ==> (#[trigger] body.get_str(keys@[j]@)) is None,
        decreases keys@.len() - k,
    {
        match body.get_string(keys[k]) {
            Some(s) => {
                proof {
                    lemma_first_some(*body, keys@, k as int);
                }
                let c = chars_of(s.as_str());
                let t = trim_chars(&c);
                return string_of(&t);
            },
            None => {},
        }
        k = k + 1;
    }
    String::new()
}

/// The first string among the fields `keys`, untrimmed.
pub fn body_raw(body: &JsonBody, keys: &[&str]) -> (r: String)
    requires
        body.wf(),
    ensures
        r@ == spec_body_raw(*body, keys@),
{
    let mut k: usize = 0;
    while k < keys.len()
        invariant
            k <= keys@.len(),
            body.wf(),
            forall|j: int| 0 <= j < k ==> (#[trigger] body.get_str(keys@[j]@)) is None,
        decreases keys@.len() - k,
    {
        match body.get_string(keys[k]) {
            Some(s) => {
                proof {
                    lemma_first_some_raw(*body, keys@, k as int);
                }
                return s;
            },
            None => {},
        }
        k = k + 1;
    }
    String::new()
}

/// Percent-decoding of the bytes from index `i` on: `%` with two bytes that
/// parse as a base-16 `u8` (see `pair_value`) becomes that byte.
pub open spec fn pct_decode(b: Seq<u8>, i: int) -> Seq<u8>
    decreases b.len() - i,
{
    if i < 0 || i >= b.len() {
        Seq::<u8>::empty()
    } else if b[i] == 37 && i + 2 < b.len() && pair_value(b[i + 1], b[i + 2]) is Some {
        seq![pair_value(b[i + 1], b[i + 2])->0] + pct_decode(b, i + 3)
    } else {
        seq![b[i]] + pct_decode(b, i + 1)
    }
}

/// Where `url_decode` looks at the two bytes after a `%`, they end on a
/// character boundary (elsewhere the slice would panic).
pub open spec fn pct_defined(b: Seq<u8>, i: int) -> bool
    decreases b.len() - i,
{
    if i < 0 || i >= b.len() {
        true
    } else if b[i] == 37 && i + 2 < b.len() {
        (i + 3 == b.len() || !is_continuation_byte(b[i + 3])) && if pair_value(b[i + 1], b[i + 2]) is Some {
            pct_defined(b, i + 3)
        } else {
            pct_defined(b, i + 1)
        }
    } else {
        pct_defined(b, i + 1)
    }
}

/// Whether `url_decode` can read `s`: after each `%` it decodes, the next
/// byte starts a character.
pub fn url_decodable(s: &str) -> (r: bool)
    ensures
        r == pct_defined(encode_utf8(s@), 0),
{
    let bytes = s.as_bytes();
    let ghost b = bytes@;
    let mut i: usize = 0;
    while i < bytes.len()
        invariant
            i <= bytes@.len(),
            b == bytes@,
            b == encode_utf8(s@),
            pct_defined(b, i as int) == pct_defined(b, 0),
        decreases bytes@.len() - i,
    {
        if bytes[i] == 37 && bytes.len() - i > 2 {
            if bytes.len() - i > 3 && 0x80 <= bytes[i + 3] && bytes[i + 3] <= 0xbf {
                assert(!pct_defined(b, i as int));
                return false;
            }
            match crate::password::pair_value_of(bytes[i + 1], bytes[i + 2]) {
                Some(_) => {
                    i = i + 3;
                    continue;
                },
                None => {},
            }
        }
        i = i + 1;
    }
    assert(pct_defined(b, i as int));
    true
}

/// `String::from_utf8_lossy`: a function of the bytes alone.
pub uninterp spec fn spec_utf8_lossy(b: Seq<u8>) -> Seq<char>;

/// `String::from_utf8_lossy(..).into_owned()`. Claimed: the text is the named
/// function of the bytes, and for valid UTF-8 it is their decoding (the
/// replacement of invalid sequences is not stated).
#[verifier::external_body]
fn utf8_lossy(b: &[u8]) -> (r: String)
    ensures
        r@ == spec_utf8_lossy(b@),
        valid_utf8(b@) ==> r@ == decode_utf8(b@),
{
    String::from_utf8_lossy(b).into_owned()
}

/// What `url_decode` returns for the text `s`.
pub open spec fn spec_url_decode(s: Seq<char>) -> Seq<char> {
    spec_utf8_lossy(pct_decode(encode_utf8(s), 0))
}

/// Percent-decoding of a path or query piece (invalid UTF-8 becomes U+FFFD).
pub fn url_decode(s: &str) -> (r: String)
    requires
        pct_defined(encode_utf8(s@), 0),
    ensures
        r@ == spec_url_decode(s@),
        !s@.contains('%') ==> r@ == s@,
{
    let bytes = s.as_bytes();
    let ghost b = bytes@;
    let mut out: Vec<u8> = Vec::new();
    let mut i: usize = 0;
    while i < bytes.len()
        invariant
            i <= bytes@.len(),
            b == bytes@,
            out@ + pct_decode(b, i as int) == pct_decode(b, 0),
        decreases bytes@.len() - i,
    {
        if bytes[i] == 37 && bytes.len() - i > 2 {
            match crate::password::pair_value_of(bytes[i + 1], bytes[i + 2]) {
                Some(v) => {
                    let ghost prev = out@;
                    out.push(v);
                    assert(out@ + pct_decode(b, i + 3) =~= prev + pct_decode(b, i as int));
                    i = i + 3;
                    continue;
                },
                None => {},
            }
        }
        let ghost prev = out@;
        out.push(bytes[i]);
        assert(out@ + pct_decode(b, i + 1) =~= prev + pct_decode(b, i as int));
        i = i + 1;
    }
    assert(out@ =~= pct_decode(b, 0));
    proof {
        if !s@.contains('%') {
            lemma_url_decode_plain(s@);
            encode_utf8_valid_utf8(s@);
            encode_utf8_decode_utf8(s@);
        }
    }
    utf8_lossy(&out)
}

proof fn lemma_pct_plain(b: Seq<u8>, i: int)
    requires
        0 <= i <= b.len(),
        forall|k: int| 0 <= k < b.len() ==> b[k] != 37,
    ensures
        pct_decode(b, i) == b.subrange(i, b.len() as int),
        pct_defined(b, i),
    decreases b.len() - i,
{
    if i < b.len() {
        lemma_pct_plain(b, i + 1);
        assert(seq![b[i]] + b.subrange(i + 1, b.len() as int) =~= b.subrange(i, b.len() as int));
    } else {
        assert(b.subrange(i, b.len() as int) =~= Seq::<u8>::empty());
    }
}

/// Text without `%` decodes to its own bytes.
proof fn lemma_url_decode_plain(s: Seq<char>)
    requires
        !s.contains('%'),
    ensures
        pct_defined(encode_utf8(s), 0),
        pct_decode(encode_utf8(s), 0) == encode_utf8(s),
{
    let b = encode_utf8(s);
    lemma_no_percent_byte(s);
    lemma_pct_plain(b, 0);
    assert(b.subrange(0, b.len() as int) =~= b);
}

proof fn lemma_scalar_not_percent(v: u32)
    requires
        v != 37,
    ensures
        forall|k: int| 0 <= k < encode_scalar(v).len() ==> #[trigger] encode_scalar(v)[k] != 37,
{
    assert(v <= 0x7f ==> (v & 0x7f) as u8 != 37) by (bit_vector)
        requires
            v != 37,
    ;
    assert((0xC0u8 | ((v >> 6u32) & 0x1F) as u8) != 37) by (bit_vector);
    assert((0xE0u8 | ((v >> 12u32) & 0x0F) as u8) != 37) by (bit_vector);
    assert((0xF0u8 | ((v >> 18u32) & 0x7) as u8) != 37) by (bit_vector);
    assert((0x80u8 | (v & 0x3F) as u8) != 37) by (bit_vector);
    assert((0x80u8 | ((v >> 6u32) & 0x3F) as u8) != 37) by (bit_vector);
    assert((0x80u8 | ((v >> 12u32) & 0x3F) as u8) != 37) by (bit_vector);
}

/// Text without `%` has no `%` byte in its UTF-8 form.
proof fn lemma_no_percent_byte(s: Seq<char>)
    requires
        !s.contains('%'),
    ensures
        forall|k: int| 0 <= k < encode_utf8(s).len() ==> #[trigger] encode_utf8(s)[k] != 37,
    decreases s.len(),
{
    if s.len() > 0 {
        assert(!s.drop_first().contains('%')) by {
            if s.drop_first().contains('%') {
                let k = choose|k: int| 0 <= k < s.drop_first().len() && s.drop_first()[k] == '%';
                assert(s[k + 1] == '%');
            }
        }
        lemma_no_percent_byte(s.drop_first());
        assert(s[0] != '%');
        assert((s[0] as u32) != 37) by {
            if (s[0] as u32) == 37 {
                vstd::utf8::char_u32_cast(s[0], 37);
                vstd::utf8::char_u32_cast('%', 37);
            }
        }
        lemma_scalar_not_percent(s[0] as u32);
        let e = encode_scalar(s[0] as u32);
        let r = encode_utf8(s.drop_first());
        assert(encode_utf8(s) == e + r);
        assert forall|k: int| 0 <= k < encode_utf8(s).len() implies #[trigger] encode_utf8(s)[k] != 37 by {
            if k < e.len() {
                assert(encode_utf8(s)[k] == e[k]);
            } else {
                assert(encode_utf8(s)[k] == r[k - e.len()]);
            }
        }
    }
}

} // verus!
