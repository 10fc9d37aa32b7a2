use cloudflare_auth::http::{
    api_err, body_raw, body_str, body_strings, url_decodable, url_decode, FieldValue, JsonBody,
};

fn body(fields: Vec<(&str, FieldValue)>) -> JsonBody {
    JsonBody { fields: fields.into_iter().map(|(k, v)| (k.to_string(), v)).collect() }
}

fn text(v: &str) -> FieldValue {
    FieldValue::Str(v.to_string())
}

#[test]
fn error_values() {
    let e = api_err(418, "teapot", "short and stout".to_string());
    assert_eq!((e.status, e.code, e.message.as_str()), (418, "teapot", "short and stout"));
}

#[test]
fn percent_decoding() {
    assert_eq!(url_decode("a%20b"), "a b");
    assert_eq!(url_decode("%E4%B8%AD%e6%96%87"), "中文");
    assert_eq!(url_decode("100%"), "100%");
    assert_eq!(url_decode("%zz%4"), "%zz%4");
    assert_eq!(url_decode("plain+text"), "plain+text");
    assert_eq!(url_decode("%ff"), "\u{fffd}");
    assert_eq!(url_decode("%+4"), "\u{4}");
}

#[test]
fn decoding_text_without_percent_changes_nothing() {
    for s in ["", "abc", "https://a.b/c?d=e", "中文 ü"] {
        assert_eq!(url_decode(s), s);
    }
}

#[test]
fn decodable_texts() {
    assert!(url_decodable("a%20b"));
    assert!(url_decodable("中%"));
    assert!(url_decodable("%zzé"));
    assert!(url_decodable("%41é"));
    assert!(!url_decodable("%aé"));
}

#[test]
fn body_string_fields() {
    let b = body(vec![
        ("client_id", text("   ")),
        ("clientId", text(" app_1 ")),
        ("n", FieldValue::Other),
        ("password", text("  pw ")),
    ]);
    assert_eq!(body_str(&b, &["client_id", "clientId"]), "app_1");
    assert_eq!(body_str(&b, &["client_id"]), "");
    assert_eq!(body_str(&b, &["n", "missing"]), "");
    assert_eq!(body_raw(&b, &["password"]), "  pw ");
    assert_eq!(body_raw(&b, &["missing", "password"]), "  pw ");
    assert_eq!(body_raw(&b, &["missing"]), "");
}

#[test]
fn body_string_lists() {
    let b = body(vec![
        ("redirectUris", FieldValue::List(vec![Some("a".into()), None, Some("b".into())])),
        ("name", text("x")),
    ]);
    assert_eq!(body_strings(&b, "redirectUris"), Some(vec!["a".to_string(), "b".to_string()]));
    assert_eq!(body_strings(&b, "name"), None);
    assert_eq!(body_strings(&b, "missing"), None);
}
