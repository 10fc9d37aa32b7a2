use cloudflare_auth::password::{
    b64url, bytes_to_hex, hash_password, hash_password_with_salt, hex_to_bytes,
    hmac_sha256_b64url, password_check_defined, random_hex, random_id, sign_token_at,
    timing_safe_eq, uuid_v4, uuid_v4_from_bytes, verify_password, verify_token_at,
};

#[test]
fn hex_encoding() {
    assert_eq!(bytes_to_hex(&[0, 255, 16, 171]), "00ff10ab");
    assert_eq!(bytes_to_hex(&[]), "");
}

#[test]
fn hex_decoding() {
    assert_eq!(hex_to_bytes("00ff10AB"), vec![0, 255, 16, 171]);
    assert_eq!(hex_to_bytes("abc"), Vec::<u8>::new());
    assert_eq!(hex_to_bytes("zz01"), vec![1]);
    assert_eq!(hex_to_bytes("+f"), vec![15]);
}

#[test]
fn hex_roundtrip() {
    let bytes: Vec<u8> = (0..=255u8).collect();
    assert_eq!(hex_to_bytes(&bytes_to_hex(&bytes)), bytes);
}

#[test]
fn constant_time_compare() {
    assert!(timing_safe_eq(b"abc", b"abc"));
    assert!(!timing_safe_eq(b"abc", b"abd"));
    assert!(!timing_safe_eq(b"abc", b"ab"));
    assert!(timing_safe_eq(b"", b""));
}

#[test]
fn pbkdf2_known_vector() {
    let stored = hash_password_with_salt("password", 1, "73616c74");
    assert_eq!(
        stored,
        "pbkdf2$1$73616c74$120fb6cffcf8b32c43e7225256c4f837a86548c92ccc35480805987cb70be17b"
    );
    assert!(verify_password("password", &stored));
    assert!(!verify_password("Password", &stored));
}

#[test]
fn password_hash_verifies() {
    let stored = hash_password("correct horse", 1000);
    let parts: Vec<&str> = stored.split('$').collect();
    assert_eq!(parts.len(), 4);
    assert_eq!(parts[0], "pbkdf2");
    assert_eq!(parts[1], "1000");
    assert_eq!(parts[2].len(), 32);
    assert_eq!(parts[3].len(), 64);
    assert!(verify_password("correct horse", &stored));
    assert!(!verify_password("wrong horse", &stored));
}

#[test]
fn malformed_hashes_never_verify() {
    assert!(!verify_password("x", ""));
    assert!(!verify_password("x", "pbkdf2$0$00$00"));
    assert!(!verify_password("x", "sha1$1000$00$00"));
    assert!(!verify_password("x", "pbkdf2$abc$00$00"));
    assert!(!verify_password("x", "pbkdf2$1$00"));
}

#[test]
fn readable_hash_check() {
    assert!(password_check_defined("pbkdf2$1$73616c74$00"));
    assert!(password_check_defined("anything"));
    assert!(password_check_defined("pbkdf2$1$aé$00"));
    assert!(!password_check_defined("pbkdf2$1$aéb$00"));
}

#[test]
fn hmac_known_vector() {
    let mac = hmac_sha256_b64url("key", "The quick brown fox jumps over the lazy dog");
    assert_eq!(mac, "97yD9DBThCSxMpjmqm-xQ-9NWaFJRhdZl0edvC0aPNg");
}

#[test]
fn base64_url_safe_without_padding() {
    assert_eq!(b64url(b"hello"), "aGVsbG8");
    assert_eq!(b64url(&[0xfb, 0xff]), "-_8");
    assert_eq!(b64url(b""), "");
}

#[test]
fn token_signed_then_verified() {
    let sid = "0b7e8a52-3c1d-4f2a-9e11-5d6c7b8a9f00";
    let token = sign_token_at("secret", sid, 3600, 1_700_000_000);
    assert_eq!(token.split('.').count(), 3);
    assert_eq!(
        verify_token_at("secret", &token, 1_700_000_000),
        Some((sid.to_string(), 1_700_003_600))
    );
    assert_eq!(
        verify_token_at("secret", &token, 1_700_003_600),
        Some((sid.to_string(), 1_700_003_600))
    );
}

#[test]
fn token_with_url_safe_payload_characters_verifies() {
    let token = sign_token_at("secret", "~~~", 60, 1_700_000_000);
    let parts: Vec<&str> = token.split('.').collect();
    assert!(parts[1].contains('-') || parts[1].contains('_'));
    assert_eq!(
        verify_token_at("secret", &token, 1_700_000_000),
        Some(("~~~".to_string(), 1_700_000_060))
    );
}

#[test]
fn token_refused_after_expiry_or_tampering() {
    let sid = "0b7e8a52-3c1d-4f2a-9e11-5d6c7b8a9f00";
    let token = sign_token_at("secret", sid, 3600, 1_700_000_000);
    assert_eq!(verify_token_at("secret", &token, 1_700_003_601), None);
    assert_eq!(verify_token_at("other", &token, 1_700_000_000), None);
    let mut tampered = token.clone();
    tampered.push('x');
    assert_eq!(verify_token_at("secret", &tampered, 1_700_000_000), None);
    assert_eq!(verify_token_at("secret", "a.b", 1_700_000_000), None);
}

#[test]
fn token_header_and_payload() {
    let token = sign_token_at("s", "abc", 10, 100);
    let parts: Vec<&str> = token.split('.').collect();
    assert_eq!(parts[0], "eyJhbGciOiJIUzI1NiIsInR5cCI6IkpXVCJ9");
    assert_eq!(parts[1], b64url(br#"{"sid":"abc","iat":100,"exp":110}"#));
    assert_eq!(parts[2], hmac_sha256_b64url("s", &format!("{}.{}", parts[0], parts[1])));
}

#[test]
fn uuid_from_fixed_bytes() {
    let bytes: Vec<u8> = (0..16u8).collect();
    assert_eq!(uuid_v4_from_bytes(&bytes), "00010203-0405-4607-8809-0a0b0c0d0e0f");
    let ff = [0xffu8; 16];
    assert_eq!(uuid_v4_from_bytes(&ff), "ffffffff-ffff-4fff-bfff-ffffffffffff");
}

#[test]
fn random_values_have_their_shape() {
    let u = uuid_v4();
    assert_eq!(u.len(), 36);
    assert_eq!(&u[14..15], "4");
    assert!(matches!(&u[19..20], "8" | "9" | "a" | "b"));
    let id = random_id();
    assert_eq!(id.len(), 32);
    assert!(id.chars().all(|c| c.is_ascii_hexdigit() && !c.is_ascii_uppercase()));
    let h = random_hex(3);
    assert_eq!(h.len(), 6);
    assert_ne!(random_id(), random_id());
}
