use broquest::domain::{AuthType, ContentType, HttpMethod, KeyValuePair};

#[test]
fn test_auth_type_none_default() {
    let auth = AuthType::default();
    assert!(matches!(auth, AuthType::NoAuth));
}

#[test]
fn auth_names() {
    let all = AuthType::all_types();
    assert_eq!(all.len(), 7);
    let names: Vec<&str> = all.iter().map(|a| a.kind_name()).collect();
    assert_eq!(names, vec!["none", "inherit", "basic", "digest", "key", "oauth2", "jwt"]);
    assert_eq!(all[4].name(), "API Key");
    assert!(all[2].has_secrets());
    assert!(!all[4].has_secrets());
}

#[test]
fn content_type_from_header() {
    assert_eq!(ContentType::from_header("Application/JSON; charset=utf-8"), ContentType::Json);
    assert_eq!(ContentType::from_header("text/xml"), ContentType::Xml);
    assert_eq!(ContentType::from_header("TEXT/HTML"), ContentType::Html);
    assert_eq!(ContentType::from_header("text/plain"), ContentType::Text);
    assert_eq!(ContentType::from_header("application/x-www-form-urlencoded"), ContentType::Form);
    assert_eq!(ContentType::from_header("image/png"), ContentType::Json);
    assert_eq!(ContentType::UrlEncoded.body_type(), "form");
    assert_eq!(ContentType::Form.language(), "text");
    assert_eq!(ContentType::Html.as_str(), "text/html");
}

#[test]
fn method_names() {
    assert_eq!(HttpMethod::Options.as_str(), "OPTIONS");
    assert_eq!(HttpMethod::parse(&['p', 'a', 't', 'c', 'h']), HttpMethod::Patch);
}

fn kv(k: &str, v: &str, e: bool) -> KeyValuePair {
    KeyValuePair { key: k.to_string(), value: v.to_string(), enabled: e }
}

#[test]
fn vec_equals_ignores_order_and_blank_keys() {
    let a = vec![kv("a", "1", true), kv(" ", "x", true), kv("b", "2", false)];
    let b = vec![kv("b", "2", false), kv("a", "1", true)];
    assert!(KeyValuePair::vec_equals(&a, &b));
    assert!(KeyValuePair::vec_equals(&b, &a));
    let c = vec![kv("b", "2", true), kv("a", "1", true)];
    assert!(!KeyValuePair::vec_equals(&a, &c));
    let d = vec![kv("a", "1", true)];
    assert!(!KeyValuePair::vec_equals(&a, &d));
}

#[test]
fn vec_equals_counts_repeats() {
    let two_same = vec![kv("a", "1", true), kv("a", "1", true)];
    let mixed = vec![kv("a", "1", true), kv("b", "2", true)];
    assert!(!KeyValuePair::vec_equals(&two_same, &mixed));
    assert!(!KeyValuePair::vec_equals(&mixed, &two_same));
    let same_twice = vec![kv("a", "1", true), kv("", "z", true), kv("a", "1", true)];
    assert!(KeyValuePair::vec_equals(&two_same, &same_twice));
}

#[test]
fn content_types_read_back_from_their_header_value() {
    for c in [ContentType::Json, ContentType::Xml, ContentType::Text, ContentType::Html, ContentType::Form] {
        assert_eq!(ContentType::from_header(c.as_str()), c);
    }
    assert_eq!(ContentType::from_header(ContentType::UrlEncoded.as_str()), ContentType::Form);
}

#[test]
fn all_auth_types_have_default_settings() {
    let all = AuthType::all_types();
    assert_eq!(all.len(), 7);
    match &all[5] {
        AuthType::OAuth2(o) => {
            assert!(o.token_url.is_empty());
            assert!(o.scope.is_none());
            assert!(o.client_secret.is_empty());
        }
        _ => panic!("expected OAuth2"),
    }
    match &all[6] {
        AuthType::Jwt(j) => {
            assert_eq!(j.username_field, "username");
            assert_eq!(j.password_field, "password");
            assert_eq!(j.token_type_field, "token_type");
            assert_eq!(j.expiry_field, "expires_in");
        }
        _ => panic!("expected JWT"),
    }
}
