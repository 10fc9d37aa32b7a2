//! Uploaded images: every upload is cropped to its centre square, scaled and
//! re-encoded as JPEG before it is stored; stored images and identicons
//! answer for avatars and application icons.

use vstd::prelude::*;
use vstd::wrapping::u32_specs::wrapping_mul;

use crate::apps::{stored_key, ImageReply};
use crate::db::AvatarSeedRow;
use crate::decimal::{digits_of, push_u64};
use crate::http::{api_err, is_err, ApiError};
use crate::password::opt_bytes;
use crate::text::{push_str, string_of};

verus! {

/// The largest upload accepted, in bytes.
pub const MAX_UPLOAD_BYTES: usize = 5 * 1024 * 1024;

/// The shortest edge accepted, in pixels.
pub const MIN_EDGE_PX: u32 = 16;

/// The edge of a stored avatar, in pixels.
pub const AVATAR_SIZE: u32 = 256;

/// The edge of a stored application icon, in pixels.
pub const APP_ICON_SIZE: u32 = 256;

/// The JPEG quality of stored images.
pub const JPEG_QUALITY: u8 = 82;

pub const JPEG_CONTENT_TYPE: &'static str = "image/jpeg";

pub const AVATAR_PREFIX: &'static str = "avatars";

pub const APP_ICON_PREFIX: &'static str = "apps";

/// How long clients may keep a stored image.
pub const CACHE_CONTROL: &'static str = "public, max-age=604800, immutable";

#[verifier::external_type_specification]
#[verifier::external_body]
pub struct ExDynamicImage(image::DynamicImage);

/// The width and height of the image that some bytes decode to, `None`
/// when they are not an image the service reads: a function of the bytes.
pub uninterp spec fn spec_decoded_size(input: Seq<u8>) -> Option<(u32, u32)>;

/// How an image in hand came to be: decoded from some bytes, then cut or
/// scaled. Two images with the same history hold the same pixels.
pub enum ImageSteps {
    Decoded { bytes: Seq<u8> },
    Cropped { from: Box<ImageSteps>, x: u32, y: u32, side: u32 },
    Resized { from: Box<ImageSteps>, width: u32, height: u32 },
}

/// The width and height of an image with the given history, `None` when
/// its bytes never decoded. A crop keeps what lies inside the image.
pub open spec fn steps_size(steps: ImageSteps) -> Option<(u32, u32)>
    decreases steps,
{
    match steps {
        ImageSteps::Decoded { bytes } => spec_decoded_size(bytes),
        ImageSteps::Cropped { from, x, y, side } => match steps_size(*from) {
            Some((w, h)) => {
                let cx = if x < w { x } else { w };
                let cy = if y < h { y } else { h };
                let cw = if side < w - cx { side } else { (w - cx) as u32 };
                let ch = if side < h - cy { side } else { (h - cy) as u32 };
                Some((cw, ch))
            },
            None => None,
        },
        ImageSteps::Resized { from, width, height } => match steps_size(*from) {
            Some(_) => Some((width, height)),
            None => None,
        },
    }
}

/// A decoded image together with its history.
struct Image {
    pixels: image::DynamicImage,
    steps: Ghost<ImageSteps>,
}

impl View for Image {
    type V = ImageSteps;

    closed spec fn view(&self) -> ImageSteps {
        self.steps@
    }
}

/// The JPEG bytes that an image with the given history encodes to at the
/// given quality, `None` when the encoder refuses it: a function of the
/// image and the quality.
pub uninterp spec fn spec_jpeg_encoding(image: ImageSteps, quality: u8) -> Option<Seq<u8>>;

/// `image::load_from_memory`, with the decoded image's `width` and
/// `height`. Claimed: the result is `Some` exactly when the named function
/// gives a size, the size is that one, and the image is the one decoded
/// from these bytes.
#[verifier::external_body]
fn decode_image(input: &[u8]) -> (r: Option<(Image, u32, u32)>)
    ensures
        r matches Some((img, w, h)) ==> spec_decoded_size(input@) == Some((w, h)) && img@
            == (ImageSteps::Decoded { bytes: input@ }),
        r is None ==> spec_decoded_size(input@) is None,
{
    let img = image::load_from_memory(input).ok()?;
    let (w, h) = (img.width(), img.height());
    Some((Image { pixels: img, steps: Ghost(ImageSteps::Decoded { bytes: input@ }) }, w, h))
}

/// `DynamicImage::crop_imm`: the part at `x`, `y` of `side` by `side`
/// pixels, clamped to the image. Claimed: the result is that crop of `img`.
#[verifier::external_body]
fn crop_image(img: &Image, x: u32, y: u32, side: u32) -> (r: Image)
    ensures
        r@ == (ImageSteps::Cropped { from: Box::new(img@), x, y, side }),
{
    let pixels = img.pixels.crop_imm(x, y, side, side);
    Image { pixels, steps: Ghost(ImageSteps::Cropped { from: Box::new(img@), x, y, side }) }
}

/// `DynamicImage::resize_exact` to `target` by `target` pixels with the
/// triangle filter. Claimed: the result is that scaling of `img`.
#[verifier::external_body]
fn resize_image(img: &Image, target: u32) -> (r: Image)
    ensures
        r@ == (ImageSteps::Resized { from: Box::new(img@), width: target, height: target }),
{
    let pixels = img.pixels.resize_exact(target, target, image::imageops::FilterType::Triangle);
    Image {
        pixels,
        steps: Ghost(ImageSteps::Resized { from: Box::new(img@), width: target, height: target }),
    }
}

/// `write_with_encoder` of the image as 8-bit RGB (`to_rgb8`) into a
/// `JpegEncoder` of the given quality; `None` when encoding fails. Claimed:
/// the result is the named encoding of this image at this quality.
#[verifier::external_body]
fn encode_jpeg(img: &Image, quality: u8) -> (r: Option<Vec<u8>>)
    ensures
        opt_bytes(r) == spec_jpeg_encoding(img@, quality),
{
    let rgb = img.pixels.to_rgb8();
    let mut buf: Vec<u8> = Vec::new();
    let enc = image::codecs::jpeg::JpegEncoder::new_with_quality(&mut buf, quality);
    rgb.write_with_encoder(enc).ok()?;
    Some(buf)
}

/// The centred square of a `w` by `h` image: its left and top offsets and
/// its side.
pub open spec fn spec_center_square(w: u32, h: u32) -> (u32, u32, u32) {
    let side = if w < h {
        w
    } else {
        h
    };
    (((w - side) / 2) as u32, ((h - side) / 2) as u32, side)
}

pub fn center_square(w: u32, h: u32) -> (r: (u32, u32, u32))
    ensures
        r == spec_center_square(w, h),
{
    let side = if w < h {
        w
    } else {
        h
    };
    ((w - side) / 2, (h - side) / 2, side)
}

/// A compressed image over budget: more than 64 KiB, at least as many
/// bytes (counted in a `u32`) as the square has pixels (the product taken
/// in a `u32`), and more than 512 KiB.
pub open spec fn over_budget(len: usize, side: u32) -> bool {
    (len as u32) >= wrapping_mul(side, side) && len > 64 * 1024 && len > 512 * 1024
}

pub fn within_budget(len: usize, side: u32) -> (r: bool)
    ensures
        r == !over_budget(len, side),
{
    let pixels = side.wrapping_mul(side);
    #[verifier::truncate]
    let counted = len as u32;
    !(counted >= pixels && len > 64 * 1024 && len > 512 * 1024)
}

/// The side of the centred square of the image the bytes decode to.
pub open spec fn decoded_side(input: Seq<u8>) -> u32 {
    match spec_decoded_size(input) {
        Some((w, h)) => spec_center_square(w, h).2,
        None => 0,
    }
}

pub open spec fn max_upload_rule() -> Seq<char> {
    "Image must be <= "@ + digits_of(MAX_UPLOAD_BYTES as nat) + " bytes"@
}

pub open spec fn min_edge_rule() -> Seq<char> {
    "Image must be at least "@ + digits_of(MIN_EDGE_PX as nat) + "px on each side"@
}

/// The centred square of the image some bytes decode to, cut out of it.
pub open spec fn centre_crop_steps(input: Seq<u8>) -> ImageSteps {
    let decoded = ImageSteps::Decoded { bytes: input };
    match spec_decoded_size(input) {
        Some((w, h)) => {
            let (x, y, side) = spec_center_square(w, h);
            ImageSteps::Cropped { from: Box::new(decoded), x, y, side }
        },
        None => decoded,
    }
}

/// The centred square of an upload, scaled to `target` pixels square.
pub open spec fn upload_steps(input: Seq<u8>, target: u32) -> ImageSteps {
    ImageSteps::Resized { from: Box::new(centre_crop_steps(input)), width: target, height: target }
}

/// The crop of a decoded `w` by `h` image is its centred square: its side
/// is the shorter edge `s`, it starts `(w - s) / 2` pixels from the left
/// and `(h - s) / 2` from the top, and the margins left and right (above
/// and below) differ by at most one pixel.
pub proof fn lemma_crop_is_centred(input: Seq<u8>, w: u32, h: u32)
    requires
        spec_decoded_size(input) == Some((w, h)),
    ensures
        ({
            let s: int = if w <= h {
                w as int
            } else {
                h as int
            };
            let x: int = (w - s) / 2;
            let y: int = (h - s) / 2;
            &&& centre_crop_steps(input) == (ImageSteps::Cropped {
                from: Box::new(ImageSteps::Decoded { bytes: input }),
                x: x as u32,
                y: y as u32,
                side: s as u32,
            })
            &&& s <= w && s <= h && (s == w || s == h)
            &&& 0 <= (w - s - x) - x <= 1
            &&& 0 <= (h - s - y) - y <= 1
        }),
{
}

/// The centred square of a decoded image is `side` by `side` pixels for the
/// shorter edge `side`, so the stored upload is `target` pixels square.
pub proof fn lemma_upload_is_square(input: Seq<u8>, target: u32)
    requires
        spec_decoded_size(input) matches Some((w, h)) && w > 0 && h > 0,
    ensures
        steps_size(centre_crop_steps(input)) == Some((decoded_side(input), decoded_side(input))),
        steps_size(upload_steps(input, target)) == Some((target, target)),
{
    let (w, h) = spec_decoded_size(input).unwrap();
    let (x, y, side) = spec_center_square(w, h);
    assert(steps_size(ImageSteps::Decoded { bytes: input }) == Some((w, h)));
    assert(x < w && y < h);
    assert(steps_size(centre_crop_steps(input)) == Some((side, side)));
}

/// An upload that is worth decoding and large enough: not empty, within
/// the byte limit, an image, and at least 16 pixels on each side.
pub open spec fn upload_accepted(input: Seq<u8>) -> bool {
    &&& 0 < input.len() <= MAX_UPLOAD_BYTES
    &&& spec_decoded_size(input) matches Some((w, h)) && w >= MIN_EDGE_PX && h >= MIN_EDGE_PX
}

/// Decodes an upload, crops its centred square, scales it to `target`
/// pixels square and encodes it as JPEG. An empty body, an oversized one,
/// bytes that are no image, or an image under 16 pixels on a side are
/// refused before any work; an encoding failure is a 500, and a result over
/// budget is refused.
pub fn crop_resize_jpeg(input: &[u8], target: u32) -> (r: Result<Vec<u8>, ApiError>)
    ensures
        input@.len() == 0 ==> (r matches Err(e) && is_err(e, 400, "invalid_image"@) && e.message@
            == "Empty image body"@),
        input@.len() > MAX_UPLOAD_BYTES ==> (r matches Err(e) && is_err(
            e,
            413,
            "image_too_large"@,
        ) && e.message@ == max_upload_rule()),
        0 < input@.len() <= MAX_UPLOAD_BYTES && spec_decoded_size(input@) is None ==> (r matches Err(
            e,
        ) && is_err(e, 400, "invalid_image"@) && e.message@
            == "Unsupported or corrupt image (jpeg/png/gif/webp)"@),
        0 < input@.len() <= MAX_UPLOAD_BYTES && (spec_decoded_size(input@) matches Some((w, h)) && (w
            < MIN_EDGE_PX || h < MIN_EDGE_PX)) ==> (r matches Err(e) && is_err(
            e,
            400,
            "image_too_small"@,
        ) && e.message@ == min_edge_rule()),
        upload_accepted(input@) ==> (match spec_jpeg_encoding(
            upload_steps(input@, target),
            JPEG_QUALITY,
        ) {
            None => r matches Err(e) && is_err(e, 500, "internal_error"@) && e.message@
                == "JPEG encode failed"@,
            Some(b) => if over_budget(b.len() as usize, decoded_side(input@)) {
                r matches Err(e) && is_err(e, 400, "image_too_large"@) && e.message@
                    == "Compressed image exceeded size budget"@
            } else {
                r matches Ok(buf) && buf@ == b
            },
        }),
        r is Ok ==> upload_accepted(input@),
{
    if input.len() == 0 {
        return Err(api_err(400, "invalid_image", String::from_str("Empty image body")));
    }
    if input.len() > MAX_UPLOAD_BYTES {
        let mut m: Vec<char> = Vec::new();
        push_str(&mut m, "Image must be <= ");
        push_u64(&mut m, MAX_UPLOAD_BYTES as u64);
        push_str(&mut m, " bytes");
        return Err(api_err(413, "image_too_large", string_of(&m)));
    }
    let (img, w, h) = match decode_image(input) {
        Some(d) => d,
        None => {
            return Err(
                api_err(
                    400,
                    "invalid_image",
                    String::from_str("Unsupported or corrupt image (jpeg/png/gif/webp)"),
                ),
            );
        },
    };
    if w < MIN_EDGE_PX || h < MIN_EDGE_PX {
        let mut m: Vec<char> = Vec::new();
        push_str(&mut m, "Image must be at least ");
        push_u64(&mut m, MIN_EDGE_PX as u64);
        push_str(&mut m, "px on each side");
        return Err(api_err(400, "image_too_small", string_of(&m)));
    }
    let (x, y, side) = center_square(w, h);
    let cropped = crop_image(&img, x, y, side);
    let resized = resize_image(&cropped, target);
    let buf = match encode_jpeg(&resized, JPEG_QUALITY) {
        Some(b) => b,
        None => {
            return Err(api_err(500, "internal_error", String::from_str("JPEG encode failed")));
        },
    };
    if !within_budget(buf.len(), side) {
        return Err(
            api_err(400, "image_too_large", String::from_str("Compressed image exceeded size budget")),
        );
    }
    Ok(buf)
}

/// `{prefix}/{id}.jpg`.
pub open spec fn object_key(prefix: Seq<char>, id: Seq<char>) -> Seq<char> {
    prefix + "/"@ + id + ".jpg"@
}

/// The storage key of a user's avatar.
pub fn avatar_key(user_id: &str) -> (r: String)
    ensures
        r@ == object_key(AVATAR_PREFIX@, user_id@),
{
    let mut k: Vec<char> = Vec::new();
    push_str(&mut k, AVATAR_PREFIX);
    push_str(&mut k, "/");
    push_str(&mut k, user_id);
    push_str(&mut k, ".jpg");
    string_of(&k)
}

/// The storage key of an application's icon, by its public id.
pub fn app_icon_key(app_public_id: &str) -> (r: String)
    ensures
        r@ == object_key(APP_ICON_PREFIX@, app_public_id@),
{
    let mut k: Vec<char> = Vec::new();
    push_str(&mut k, APP_ICON_PREFIX);
    push_str(&mut k, "/");
    push_str(&mut k, app_public_id);
    push_str(&mut k, ".jpg");
    string_of(&k)
}

/// The avatar row a request names, or 404.
pub fn avatar_row(found: Option<AvatarSeedRow>) -> (r: Result<AvatarSeedRow, ApiError>)
    ensures
        found matches Some(row) ==> r == Ok::<AvatarSeedRow, ApiError>(row),
        found is None ==> (r matches Err(e) && is_err(e, 404, "not_found"@) && e.message@
            == "Not found"@),
{
    match found {
        Some(row) => Ok(row),
        None => Err(api_err(404, "not_found", String::from_str("Not found"))),
    }
}

/// The seed an avatar is drawn from when no stored image answers: the
/// stored seed when set and not empty, else the `v` query parameter, else
/// the user id.
pub open spec fn avatar_seed_choice(row: AvatarSeedRow, query_seed: Option<Seq<char>>) -> Seq<
    char,
> {
    match row.avatar_seed {
        Some(s) if s@.len() > 0 => s@,
        _ => match query_seed {
            Some(q) => q,
            None => row.id@,
        },
    }
}

/// A user's avatar when no stored image answered: the identicon of the
/// chosen seed, 128 pixels, cached for a week.
pub fn avatar_fallback(row: &AvatarSeedRow, query_seed: Option<String>) -> (r: ImageReply)
    ensures
        r matches ImageReply::Identicon { seed, size, max_age } && seed@ == avatar_seed_choice(
            *row,
            crate::db::opt_chars(query_seed),
        ) && size == 128 && max_age == 604800,
{
    let seed = match stored_key(&row.avatar_seed) {
        Some(s) => s,
        None => match query_seed {
            Some(q) => q,
            None => row.id.clone(),
        },
    };
    ImageReply::Identicon { seed, size: 128, max_age: 604800 }
}

} // verus!
