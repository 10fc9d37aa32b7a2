//! Deterministic identicon SVG avatars.

use vstd::prelude::*;
use vstd::utf8::encode_utf8;
use vstd::wrapping::u32_specs::{wrapping_add, wrapping_mul};

use crate::decimal::{fmt_int, push_i64};
use crate::password::{push_hex, random_hex, spec_hex};
use crate::text::{push_all, push_str, string_of};

verus! {

/// FNV-style mixing state after the bytes `src`.
pub open spec fn mix_state(src: Seq<u8>) -> (u32, u32)
    decreases src.len(),
{
    if src.len() == 0 {
        (0x811c9dc5u32, 0x01000193u32)
    } else {
        let (h1, h2) = mix_state(src.drop_last());
        let i = src.len() - 1;
        let b = src.last() as u32;
        (
            wrapping_mul(h1 ^ b, 0x01000193u32),
            wrapping_add(h2, wrapping_mul(b, (i + 7) as u32)),
        )
    }
}

pub open spec fn xorshift(h: u32) -> u32 {
    let a = h ^ (h << 13u32);
    let b = a ^ (a >> 17u32);
    b ^ (b << 5u32)
}

pub open spec fn lcg(h: u32) -> u32 {
    wrapping_add(wrapping_mul(h, 1664525u32), 1013904223u32)
}

/// `n` output bytes drawn from the two generators.
pub open spec fn hash_stream(h1: u32, h2: u32, n: nat) -> Seq<u8>
    decreases n,
{
    if n == 0 {
        Seq::<u8>::empty()
    } else {
        let a = xorshift(h1);
        let b = lcg(h2);
        seq![(a ^ b) as u8] + hash_stream(a, b, (n - 1) as nat)
    }
}

/// The 16 hash bytes of `input` (hashed as `input|avatar`).
pub open spec fn spec_hash_bytes(input: Seq<char>) -> Seq<u8> {
    let (h1, h2) = mix_state(encode_utf8(input + "|avatar"@));
    hash_stream(h1, h2, 16)
}

/// The 16 hash bytes of `input`; byte indexes are taken modulo 2^32, as
/// the wrapping `u32` arithmetic of a release build does.
pub fn hash_bytes(input: &str) -> (r: Vec<u8>)
    ensures
        r@ == spec_hash_bytes(input@),
        r@.len() == 16,
{
    let mut text: Vec<char> = Vec::new();
    push_str(&mut text, input);
    push_str(&mut text, "|avatar");
    let src_text = string_of(&text);
    let src = src_text.as_str().as_bytes();
    let mut h1: u32 = 0x811c9dc5;
    let mut h2: u32 = 0x01000193;
    let mut i: usize = 0;
    while i < src.len()
        invariant
            i <= src@.len(),
            (h1, h2) == mix_state(src@.take(i as int)),
        decreases src@.len() - i,
    {
        let b = src[i];
        assert(src@.take(i as int + 1).drop_last() =~= src@.take(i as int));
        h1 = h1 ^ (b as u32);
        h1 = h1.wrapping_mul(0x01000193);
        #[verifier::truncate]
        let weight = ((i as u128) + 7) as u32;
        h2 = h2.wrapping_add((b as u32).wrapping_mul(weight));
        i = i + 1;
    }
    assert(src@.take(src@.len() as int) =~= src@);
    let mut out: Vec<u8> = Vec::with_capacity(16);
    let mut k: usize = 0;
    while k < 16
        invariant
            k <= 16,
            out@ + hash_stream(h1, h2, (16 - k) as nat) == hash_stream(
                mix_state(src@).0,
                mix_state(src@).1,
                16,
            ),
            out@.len() == k,
        decreases 16 - k,
    {
        let ghost o1 = h1;
        let ghost o2 = h2;
        h1 = h1 ^ (h1 << 13);
        h1 = h1 ^ (h1 >> 17);
        h1 = h1 ^ (h1 << 5);
        h2 = h2.wrapping_mul(1664525).wrapping_add(1013904223);
        assert(h1 == xorshift(o1));
        assert(h2 == lcg(o2));
        let ghost prev = out@;
        out.push((h1 ^ h2) as u8);
        assert(hash_stream(o1, o2, (16 - k) as nat) == seq![(h1 ^ h2) as u8] + hash_stream(
            h1,
            h2,
            (16 - k - 1) as nat,
        ));
        assert(out@ + hash_stream(h1, h2, (16 - k - 1) as nat) =~= prev + hash_stream(
            o1,
            o2,
            (16 - k) as nat,
        ));
        k = k + 1;
    }
    out
}

pub open spec fn clamp_int(v: int, lo: int, hi: int) -> int {
    if v < lo {
        lo
    } else if v > hi {
        hi
    } else {
        v
    }
}

/// One RGB channel (0..=255) of the colour with hue `h` degrees, saturation
/// `s` percent and lightness `l` percent; `n` is 0 (red), 8 (green) or 4
/// (blue). This is the HSL formula `l - a * max(-1, min(k - 3, 9 - k, 1))`
/// with `a = s * min(l, 1 - l)` and `k = (n + h / 30) mod 12`, evaluated
/// exactly and rounded half away from zero.
pub open spec fn hsl_channel(h: int, s: int, l: int, n: int) -> int {
    let hh = h % 360;
    let ss = clamp_int(s, 0, 100);
    let ll = clamp_int(l, 0, 100);
    let m = if ll < 100 - ll {
        ll
    } else {
        100 - ll
    };
    let k = (30 * n + hh) % 360;
    let t = clamp_int(
        if k - 90 < 270 - k {
            k - 90
        } else {
            270 - k
        },
        -30,
        30,
    );
    let num = clamp_int(255 * (ll * 30000 - 10 * ss * m * t), 0, 765000000);
    (2 * num + 3000000) / 6000000
}

/// `#rrggbb` of the HSL colour.
pub open spec fn spec_hsl(h: int, s: int, l: int) -> Seq<char> {
    seq!['#'] + spec_hex(
        seq![
            hsl_channel(h, s, l, 0) as u8,
            hsl_channel(h, s, l, 8) as u8,
            hsl_channel(h, s, l, 4) as u8,
        ],
    )
}

proof fn lemma_channel_bounds(h: int, s: int, l: int, n: int)
    requires
        0 <= n < 12,
        h >= 0,
    ensures
        0 <= hsl_channel(h, s, l, n) <= 255,
{
    let ss = clamp_int(s, 0, 100);
    let ll = clamp_int(l, 0, 100);
    let m = if ll < 100 - ll {
        ll
    } else {
        100 - ll
    };
    let hh = h % 360;
    let k = (30 * n + hh) % 360;
    let t = clamp_int(
        if k - 90 < 270 - k {
            k - 90
        } else {
            270 - k
        },
        -30,
        30,
    );
    let num = clamp_int(255 * (ll * 30000 - 10 * ss * m * t), 0, 765000000);
    assert(0 <= num <= 765000000);
}

fn clamp_i64(v: i64, lo: i64, hi: i64) -> (r: i64)
    requires
        lo <= hi,
    ensures
        r == clamp_int(v as int, lo as int, hi as int),
{
    if v < lo {
        lo
    } else if v > hi {
        hi
    } else {
        v
    }
}

fn hsl_channel_of(h: u32, s: u32, l: u32, n: u32) -> (r: u8)
    requires
        n < 12,
    ensures
        r as int == hsl_channel(h as int, s as int, l as int, n as int),
{
    proof {
        lemma_channel_bounds(h as int, s as int, l as int, n as int);
    }
    let hh = (h % 360) as i64;
    let ss = clamp_i64(s as i64, 0, 100);
    let ll = clamp_i64(l as i64, 0, 100);
    let m = if ll < 100 - ll {
        ll
    } else {
        100 - ll
    };
    let k = (30 * (n as i64) + hh) % 360;
    let t = clamp_i64(
        if k - 90 < 270 - k {
            k - 90
        } else {
            270 - k
        },
        -30,
        30,
    );
    assert(0 <= ss * m <= 10000) by (nonlinear_arith)
        requires
            0 <= ss <= 100,
            0 <= m <= 100,
    ;
    let p = ss * m;
    assert(-300000 <= p * t <= 300000) by (nonlinear_arith)
        requires
            0 <= p <= 10000,
            -30 <= t <= 30,
    ;
    let q = p * t;
    assert(10 * ss * m * t == 10 * q) by (nonlinear_arith)
        requires
            p == ss * m,
            q == p * t,
    ;
    let num = clamp_i64(255 * (ll * 30000 - 10 * q), 0, 765000000);
    ((2 * num + 3000000) / 6000000) as u8
}

/// `#rrggbb` of the colour with hue `h` degrees, saturation `s` percent and
/// lightness `l` percent.
fn hsl(h: u32, s: u32, l: u32) -> (r: Vec<char>)
    ensures
        r@ == spec_hsl(h as int, s as int, l as int),
{
    let rgb: Vec<u8> = vec![hsl_channel_of(h, s, l, 0), hsl_channel_of(h, s, l, 8), hsl_channel_of(h, s, l, 4)];
    let mut out: Vec<char> = Vec::new();
    out.push('#');
    push_hex(&mut out, &rgb);
    assert(rgb@ =~= seq![
        hsl_channel(h as int, s as int, l as int, 0) as u8,
        hsl_channel(h as int, s as int, l as int, 8) as u8,
        hsl_channel(h as int, s as int, l as int, 4) as u8,
    ]);
    assert(out@ =~= spec_hsl(h as int, s as int, l as int));
    out
}

/// One cell of the 20-unit grid at column `x`, row `y`.
pub open spec fn rect_svg(x: int, y: int, color: Seq<char>) -> Seq<char> {
    "<rect x=\""@ + fmt_int(x) + "\" y=\""@ + fmt_int(y) + "\" width=\"20\" height=\"20\" fill=\""@
        + color + "\"/>"@
}

/// The filled cell at column `x` of row `y` and its mirror image.
pub open spec fn cell_svg(bytes: Seq<u8>, x: int, y: int, fg: Seq<char>, fg2: Seq<char>) -> Seq<char> {
    let bit = bytes[2 + y + x] % 3;
    if bit == 0 {
        Seq::<char>::empty()
    } else {
        let color = if bit == 1 {
            fg
        } else {
            fg2
        };
        rect_svg(x * 20, y * 20, color) + if x != 2 {
            rect_svg((4 - x) * 20, y * 20, color)
        } else {
            Seq::<char>::empty()
        }
    }
}

/// The first `n` cells, row by row, three columns per row.
pub open spec fn cells_svg(bytes: Seq<u8>, fg: Seq<char>, fg2: Seq<char>, n: int) -> Seq<char>
    decreases n,
{
    if n <= 0 {
        Seq::<char>::empty()
    } else {
        cells_svg(bytes, fg, fg2, n - 1) + cell_svg(bytes, (n - 1) % 3, (n - 1) / 3, fg, fg2)
    }
}

pub open spec fn identicon_seed(seed: Seq<char>) -> Seq<char> {
    if seed.len() == 0 {
        "anonymous"@
    } else {
        seed
    }
}

/// The identicon SVG of `seed` at `size` pixels.
pub open spec fn spec_identicon(seed: Seq<char>, size: u32) -> Seq<char> {
    let bytes = spec_hash_bytes(identicon_seed(seed));
    let bg_h = bytes[0] as int;
    let fg_h = (bg_h + 140 + bytes[1] % 80) % 360;
    let bg = spec_hsl(bg_h, 28, 93);
    let fg = spec_hsl(fg_h, 55, 42);
    let fg2 = spec_hsl((fg_h + 20) % 360, 45, 58);
    let deco = if bytes[9] % 2 == 0 {
        "<circle cx=\"50\" cy=\"50\" r=\"14\" fill=\""@ + bg + "\" opacity=\"0.55\"/>"@
    } else {
        "<rect x=\"36\" y=\"36\" width=\"28\" height=\"28\" rx=\"6\" fill=\""@ + bg
            + "\" opacity=\"0.45\"/>"@
    };
    "<svg xmlns=\"http://www.w3.org/2000/svg\" width=\""@ + fmt_int(size as int) + "\" height=\""@
        + fmt_int(size as int)
        + "\" viewBox=\"0 0 100 100\" role=\"img\" aria-label=\"User avatar\"><rect width=\"100\" height=\"100\" fill=\""@
        + bg + "\"/>"@ + cells_svg(bytes, fg, fg2, 15) + deco + "</svg>"@
}

fn push_rect(out: &mut Vec<char>, x: i64, y: i64, color: &Vec<char>)
    ensures
        final(out)@ == old(out)@ + rect_svg(x as int, y as int, color@),
{
    push_str(out, "<rect x=\"");
    push_i64(out, x);
    push_str(out, "\" y=\"");
    push_i64(out, y);
    push_str(out, "\" width=\"20\" height=\"20\" fill=\"");
    push_all(out, color.as_slice());
    push_str(out, "\"/>");
    assert(final(out)@ =~= old(out)@ + rect_svg(x as int, y as int, color@));
}

/// Deterministic identicon SVG for `seed` (empty seeds draw as
/// `anonymous`): a mirrored 5x5 grid in colours derived from the seed's hash.
pub fn render_identicon_svg(seed: &str, size: u32) -> (r: String)
    ensures
        r@ == spec_identicon(seed@, size),
{
    let seed_text: &str = if seed.is_empty() {
        "anonymous"
    } else {
        seed
    };
    assert(seed_text@ == identicon_seed(seed@));
    let bytes = hash_bytes(seed_text);
    let bg_h = bytes[0] as u32;
    let fg_h = (bg_h + 140 + (bytes[1] as u32) % 80) % 360;
    let bg = hsl(bg_h, 28, 93);
    let fg = hsl(fg_h, 55, 42);
    let fg2 = hsl((fg_h + 20) % 360, 45, 58);
    let mut cells: Vec<char> = Vec::new();
    let mut idx: usize = 0;
    while idx < 15
        invariant
            idx <= 15,
            bytes@.len() == 16,
            cells@ == cells_svg(bytes@, fg@, fg2@, idx as int),
        decreases 15 - idx,
    {
        let y = idx / 3;
        let x = idx % 3;
        let bit = bytes[2 + y + x] % 3;
        if bit != 0 {
            let color = if bit == 1 {
                &fg
            } else {
                &fg2
            };
            push_rect(&mut cells, (x * 20) as i64, (y * 20) as i64, color);
            if x != 2 {
                push_rect(&mut cells, ((4 - x) * 20) as i64, (y * 20) as i64, color);
            }
        }
        assert(cells@ =~= cells_svg(bytes@, fg@, fg2@, idx as int + 1));
        idx = idx + 1;
    }
    let mut out: Vec<char> = Vec::new();
    push_str(&mut out, "<svg xmlns=\"http://www.w3.org/2000/svg\" width=\"");
    push_i64(&mut out, size as i64);
    push_str(&mut out, "\" height=\"");
    push_i64(&mut out, size as i64);
    push_str(
        &mut out,
        "\" viewBox=\"0 0 100 100\" role=\"img\" aria-label=\"User avatar\"><rect width=\"100\" height=\"100\" fill=\"",
    );
    push_all(&mut out, bg.as_slice());
    push_str(&mut out, "\"/>");
    push_all(&mut out, cells.as_slice());
    if bytes[9] % 2 == 0 {
        push_str(&mut out, "<circle cx=\"50\" cy=\"50\" r=\"14\" fill=\"");
        push_all(&mut out, bg.as_slice());
        push_str(&mut out, "\" opacity=\"0.55\"/>");
    } else {
        push_str(&mut out, "<rect x=\"36\" y=\"36\" width=\"28\" height=\"28\" rx=\"6\" fill=\"");
        push_all(&mut out, bg.as_slice());
        push_str(&mut out, "\" opacity=\"0.45\"/>");
    }
    push_str(&mut out, "</svg>");
    assert(out@ =~= spec_identicon(seed@, size));
    string_of(&out)
}

/// An identicon depends on its seed and size alone, and the empty seed
/// draws the same picture as `anonymous`.
pub proof fn lemma_identicon_deterministic(seed: Seq<char>, other: Seq<char>, size: u32)
    ensures
        identicon_seed(seed) == identicon_seed(other) ==> spec_identicon(seed, size)
            == spec_identicon(other, size),
        spec_identicon(Seq::empty(), size) == spec_identicon("anonymous"@, size),
{
    reveal_strlit("anonymous");
    assert(identicon_seed("anonymous"@) == "anonymous"@);
}

/// A fresh random avatar seed (16 hex digits).
pub fn generate_avatar_seed() -> (r: String)
    ensures
        exists|b: Seq<u8>| b.len() == 8 && r@ == spec_hex(b),
{
    random_hex(8)
}

} // verus!
