use cloudflare_auth::apps::ImageReply;
use cloudflare_auth::db::AvatarSeedRow;
use cloudflare_auth::media::{
    app_icon_key, avatar_fallback, avatar_key, avatar_row, center_square, crop_resize_jpeg,
    within_budget, AVATAR_SIZE, MAX_UPLOAD_BYTES,
};

fn png(w: u32, h: u32) -> Vec<u8> {
    let img = image::RgbImage::from_fn(w, h, |x, y| image::Rgb([(x % 256) as u8, (y % 256) as u8, 128]));
    let mut out = std::io::Cursor::new(Vec::new());
    img.write_to(&mut out, image::ImageFormat::Png).unwrap();
    out.into_inner()
}

#[test]
fn uploads_are_cropped_and_scaled() {
    let out = crop_resize_jpeg(&png(300, 120), AVATAR_SIZE).unwrap();
    let decoded = image::load_from_memory(&out).unwrap();
    assert_eq!((decoded.width(), decoded.height()), (256, 256));
    assert_eq!(image::guess_format(&out).unwrap(), image::ImageFormat::Jpeg);
}

#[test]
fn upload_errors() {
    let e = crop_resize_jpeg(&[], 256).unwrap_err();
    assert_eq!((e.status, e.code, e.message.as_str()), (400, "invalid_image", "Empty image body"));
    let big = vec![0u8; MAX_UPLOAD_BYTES + 1];
    let e = crop_resize_jpeg(&big, 256).unwrap_err();
    assert_eq!((e.status, e.code, e.message.as_str()), (413, "image_too_large", "Image must be <= 5242880 bytes"));
    let e = crop_resize_jpeg(b"not an image", 256).unwrap_err();
    assert_eq!((e.status, e.message.as_str()), (400, "Unsupported or corrupt image (jpeg/png/gif/webp)"));
    let e = crop_resize_jpeg(&png(15, 100), 256).unwrap_err();
    assert_eq!((e.status, e.code, e.message.as_str()), (400, "image_too_small", "Image must be at least 16px on each side"));
}

#[test]
fn centre_squares() {
    assert_eq!(center_square(300, 120), (90, 0, 120));
    assert_eq!(center_square(120, 301), (0, 90, 120));
    assert_eq!(center_square(16, 16), (0, 0, 16));
}

#[test]
fn size_budget() {
    assert!(within_budget(600 * 1024, 1000));
    assert!(within_budget(100 * 1024, 16));
    assert!(!within_budget(600 * 1024, 16));
    assert!(!within_budget(600 * 1024, 65536));
}

#[test]
fn storage_keys() {
    assert_eq!(avatar_key("u1"), "avatars/u1.jpg");
    assert_eq!(app_icon_key("app_1"), "apps/app_1.jpg");
}

fn row(seed: Option<&str>) -> AvatarSeedRow {
    AvatarSeedRow { id: "u1".into(), avatar_seed: seed.map(String::from), avatar_object_key: None }
}

#[test]
fn avatar_seed_choice() {
    let seed = |r: AvatarSeedRow, q: Option<&str>| match avatar_fallback(&r, q.map(String::from)) {
        ImageReply::Identicon { seed, size, max_age } => {
            assert_eq!((size, max_age), (128, 604800));
            seed
        }
        other => panic!("{other:?}"),
    };
    assert_eq!(seed(row(Some("s1")), Some("q")), "s1");
    assert_eq!(seed(row(Some("")), Some("q")), "q");
    assert_eq!(seed(row(None), None), "u1");
    let e = avatar_row(None).unwrap_err();
    assert_eq!((e.status, e.message.as_str()), (404, "Not found"));
}
