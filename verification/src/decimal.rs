//! Decimal integers as text: `{}`/`{:0w}` formatting and `str::parse`.

use vstd::prelude::*;

verus! {

pub open spec fn is_digit(c: char) -> bool {
    '0' <= c && c <= '9'
}

pub open spec fn digit_char(d: int) -> char {
    ((d + 48) as u32) as char
}

pub open spec fn all_digits(s: Seq<char>) -> bool {
    forall|i: int| 0 <= i < s.len() ==> is_digit(#[trigger] s[i])
}

/// Value of a string of decimal digits (0 for the empty string).
pub open spec fn digits_value(s: Seq<char>) -> int
    decreases s.len(),
{
    if s.len() == 0 {
        0
    } else {
        digits_value(s.drop_last()) * 10 + (s.last() as int - 48)
    }
}

/// Shortest decimal digits of `n` (`"0"` for zero).
pub open spec fn digits_of(n: nat) -> Seq<char>
    decreases n,
{
    if n < 10 {
        seq![digit_char(n as int)]
    } else {
        digits_of(n / 10).push(digit_char((n % 10) as int))
    }
}

/// `format!("{}", v)` for an integer.
pub open spec fn fmt_int(v: int) -> Seq<char> {
    if v < 0 {
        seq!['-'] + digits_of((-v) as nat)
    } else {
        digits_of(v as nat)
    }
}

pub open spec fn zeros(n: nat) -> Seq<char> {
    Seq::new(n, |i: int| '0')
}

pub open spec fn pad_zeros(s: Seq<char>, w: nat) -> Seq<char> {
    if s.len() < w {
        zeros((w - s.len()) as nat) + s
    } else {
        s
    }
}

/// `format!("{:0w$}", v)`: zero padded to width `w`, the sign counting
/// towards the width.
pub open spec fn fmt_padded(v: int, w: nat) -> Seq<char> {
    if v < 0 {
        seq!['-'] + pad_zeros(digits_of((-v) as nat), if w > 0 { (w - 1) as nat } else { 0 })
    } else {
        pad_zeros(digits_of(v as nat), w)
    }
}

/// `str::parse` of an integer type whose values are `lo..=hi`: an optional
/// `+` (or, when `signed`, `-`) and at least one ASCII digit; a value out of
/// range is an error.
pub open spec fn parse_int_spec(s: Seq<char>, signed: bool, lo: int, hi: int) -> Option<int> {
    if s.len() == 0 {
        None
    } else {
        let neg = signed && s[0] == '-';
        let ds = if s[0] == '+' || neg {
            s.drop_first()
        } else {
            s
        };
        if ds.len() == 0 || !all_digits(ds) {
            None
        } else {
            let v = if neg {
                -digits_value(ds)
            } else {
                digits_value(ds)
            };
            if lo <= v <= hi {
                Some(v)
            } else {
                None
            }
        }
    }
}

/// `str::parse::<i64>`.
pub open spec fn parse_i64_spec(s: Seq<char>) -> Option<int> {
    parse_int_spec(s, true, i64::MIN as int, i64::MAX as int)
}

/// `str::parse::<u32>`.
pub open spec fn parse_u32_spec(s: Seq<char>) -> Option<int> {
    parse_int_spec(s, false, 0, u32::MAX as int)
}

pub proof fn lemma_digits_value_nonneg(s: Seq<char>)
    requires
        all_digits(s),
    ensures
        digits_value(s) >= 0,
    decreases s.len(),
{
    if s.len() > 0 {
        lemma_digits_value_nonneg(s.drop_last());
    }
}

pub proof fn lemma_digits_value_prefix(s: Seq<char>, k: int)
    requires
        all_digits(s),
        0 <= k <= s.len(),
    ensures
        digits_value(s.take(k)) <= digits_value(s),
    decreases s.len(),
{
    if k < s.len() {
        lemma_digits_value_nonneg(s.drop_last());
        assert(s.drop_last().take(k) =~= s.take(k));
        lemma_digits_value_prefix(s.drop_last(), k);
    } else {
        assert(s.take(k) =~= s);
    }
}

/// The digits of `n` are digits, at least one of them, and read back as `n`.
pub proof fn lemma_digits_of(n: nat)
    ensures
        all_digits(digits_of(n)),
        digits_of(n).len() >= 1,
        digits_value(digits_of(n)) == n,
        n < 10 ==> digits_of(n).len() == 1,
        n >= 10 ==> digits_of(n).len() >= 2,
    decreases n,
{
    if n >= 10 {
        lemma_digits_of(n / 10);
        let s = digits_of(n);
        assert(s.drop_last() =~= digits_of(n / 10));
        assert(s.last() == digit_char((n % 10) as int));
        assert(digits_value(s) == (n / 10) * 10 + n % 10);
        assert forall|i: int| 0 <= i < s.len() implies is_digit(#[trigger] s[i]) by {
            if i < s.len() - 1 {
                assert(s[i] == digits_of(n / 10)[i]);
            }
        }
    } else {
        assert(digits_of(n).drop_last() =~= Seq::<char>::empty());
        assert(digits_value(Seq::<char>::empty()) == 0);
    }
}

/// Digits of a number below 10^w take at most `w` places.
pub proof fn lemma_digits_of_len(n: nat, w: nat)
    requires
        w >= 1,
        n < pow10(w),
    ensures
        digits_of(n).len() <= w,
    decreases n,
{
    if n >= 10 {
        assert(w >= 2) by {
            if w == 1 {
                assert(pow10(1) == 10) by {
                    reveal_with_fuel(pow10, 2);
                }
            }
        }
        assert(pow10(w) == 10 * pow10((w - 1) as nat));
        lemma_digits_of_len(n / 10, (w - 1) as nat);
    }
}

pub open spec fn pow10(n: nat) -> nat
    decreases n,
{
    if n == 0 {
        1
    } else {
        10 * pow10((n - 1) as nat)
    }
}

/// Leading zeros do not change the value of a digit string.
pub proof fn lemma_digits_value_leading_zeros(k: nat, s: Seq<char>)
    ensures
        digits_value(zeros(k) + s) == digits_value(s),
        all_digits(s) ==> all_digits(zeros(k) + s),
    decreases s.len(),
{
    if s.len() == 0 {
        assert(zeros(k) + s =~= zeros(k));
        lemma_zeros_value(k);
    } else {
        assert((zeros(k) + s).drop_last() =~= zeros(k) + s.drop_last());
        lemma_digits_value_leading_zeros(k, s.drop_last());
    }
}

proof fn lemma_zeros_value(k: nat)
    ensures
        digits_value(zeros(k)) == 0,
    decreases k,
{
    if k > 0 {
        assert(zeros(k).drop_last() =~= zeros((k - 1) as nat));
        lemma_zeros_value((k - 1) as nat);
    }
}

/// Appends the decimal digits of `n`.
pub fn push_u64(out: &mut Vec<char>, n: u64)
    ensures
        final(out)@ == old(out)@ + digits_of(n as nat),
    decreases n,
{
    if n >= 10 {
        push_u64(out, n / 10);
    }
    let d = (n % 10) as u8;
    out.push((d + 48) as char);
    proof {
        if n >= 10 {
            assert(old(out)@ + digits_of(n as nat) =~= old(out)@ + digits_of((n / 10) as nat) + seq![
                digit_char((n % 10) as int),
            ]);
        } else {
            assert(old(out)@ + digits_of(n as nat) =~= old(out)@ + seq![digit_char(n as int)]);
        }
    }
}

/// Appends `'0'` `k` times.
pub fn push_zeros(out: &mut Vec<char>, k: usize)
    ensures
        final(out)@ == old(out)@ + zeros(k as nat),
{
    let mut i: usize = 0;
    while i < k
        invariant
            i <= k,
            out@ == old(out)@ + zeros(i as nat),
        decreases k - i,
    {
        out.push('0');
        assert(old(out)@ + zeros((i + 1) as nat) =~= (old(out)@ + zeros(i as nat)).push('0'));
        i = i + 1;
    }
}

/// Appends `format!("{}", v)`.
pub fn push_i64(out: &mut Vec<char>, v: i64)
    ensures
        final(out)@ == old(out)@ + fmt_int(v as int),
{
    if v < 0 {
        out.push('-');
        let m: u64 = if v == i64::MIN {
            9223372036854775808u64
        } else {
            (-v) as u64
        };
        push_u64(out, m);
        assert(old(out)@ + fmt_int(v as int) =~= old(out)@.push('-') + digits_of(m as nat));
    } else {
        push_u64(out, v as u64);
    }
}

/// Appends `format!("{:0w$}", v)`.
pub fn push_padded(out: &mut Vec<char>, v: i64, w: usize)
    ensures
        final(out)@ == old(out)@ + fmt_padded(v as int, w as nat),
{
    let mut digits: Vec<char> = Vec::new();
    let neg = v < 0;
    let m: u64 = if v == i64::MIN {
        9223372036854775808u64
    } else if neg {
        (-v) as u64
    } else {
        v as u64
    };
    push_u64(&mut digits, m);
    assert(digits@ =~= digits_of(m as nat));
    let width: usize = if neg {
        if w > 0 {
            w - 1
        } else {
            0
        }
    } else {
        w
    };
    if neg {
        out.push('-');
    }
    let ghost mid = out@;
    if digits.len() < width {
        push_zeros(out, width - digits.len());
    }
    crate::text::push_all(out, &digits);
    proof {
        let p = pad_zeros(digits_of(m as nat), width as nat);
        if digits.len() < width {
            assert(out@ =~= mid + p);
        } else {
            assert(out@ =~= mid + p);
        }
        if neg {
            assert(old(out)@ + fmt_padded(v as int, w as nat) =~= old(out)@.push('-') + p);
        } else {
            assert(old(out)@ + fmt_padded(v as int, w as nat) =~= old(out)@ + p);
        }
    }
}

pub fn is_digit_char(c: char) -> (b: bool)
    ensures
        b == is_digit(c),
{
    '0' <= c && c <= '9'
}

/// `str::parse` of an integer type with values `lo..=hi`, where `lo` is 0 or
/// `-hi - 1`.
fn parse_int(s: &[char], signed: bool, hi: u64) -> (r: Option<i128>)
    requires
        9 <= hi <= i64::MAX,
    ensures
        r matches Some(v) ==> parse_int_spec(
            s@,
            signed,
            if signed { -hi - 1 } else { 0 },
            hi as int,
        ) == Some(v as int),
        r is None ==> parse_int_spec(
            s@,
            signed,
            if signed { -hi - 1 } else { 0 },
            hi as int,
        ) is None,
{
    let len = s.len();
    if len == 0 {
        return None;
    }
    let neg = signed && s[0] == '-';
    let start: usize = if s[0] == '+' || neg {
        1
    } else {
        0
    };
    let ghost ds = if s@[0] == '+' || neg {
        s@.drop_first()
    } else {
        s@
    };
    assert(ds =~= s@.subrange(start as int, len as int));
    if start == len {
        return None;
    }
    let limit: u64 = if neg {
        hi + 1
    } else {
        hi
    };
    let mut acc: u64 = 0;
    let mut i: usize = start;
    while i < len
        invariant
            start <= i <= len == s@.len(),
            ds == s@.subrange(start as int, len as int),
            ds == (if s@[0] == '+' || neg {
                s@.drop_first()
            } else {
                s@
            }),
            all_digits(ds.take(i - start)),
            acc as int == digits_value(ds.take(i - start)),
            acc <= limit,
            limit <= i64::MAX as u64 + 1,
            limit >= 9,
            limit == if neg { hi + 1 } else { hi as int },
            neg == (signed && s@[0] == '-'),
            len > 0,
        decreases len - i,
    {
        let c = s[i];
        if !is_digit_char(c) {
            assert(ds[i - start] == c);
            assert(!is_digit(ds[i - start]));
            return None;
        }
        let d = ((c as u32) - 48) as u64;
        assert(ds.take(i - start + 1).drop_last() =~= ds.take(i - start));
        if acc > (limit - d) / 10 {
            proof {
                assert(digits_value(ds.take(i - start + 1)) > limit);
                if all_digits(ds) {
                    lemma_digits_value_prefix(ds, i - start + 1);
                    assert(digits_value(ds) > limit);
                }
            }
            return None;
        }
        acc = acc * 10 + d;
        i = i + 1;
    }
    assert(ds.take(len - start) =~= ds);
    if neg {
        Some(-(acc as i128))
    } else {
        Some(acc as i128)
    }
}

/// `str::parse::<i64>`.
pub fn parse_i64(s: &[char]) -> (r: Option<i64>)
    ensures
        r matches Some(v) ==> parse_i64_spec(s@) == Some(v as int),
        r is None ==> parse_i64_spec(s@) is None,
{
    match parse_int(s, true, i64::MAX as u64) {
        Some(v) => Some(v as i64),
        None => None,
    }
}

/// `str::parse::<u32>`.
pub fn parse_u32(s: &[char]) -> (r: Option<u32>)
    ensures
        r matches Some(v) ==> parse_u32_spec(s@) == Some(v as int),
        r is None ==> parse_u32_spec(s@) is None,
{
    match parse_int(s, false, u32::MAX as u64) {
        Some(v) => Some(v as u32),
        None => None,
    }
}

} // verus!
