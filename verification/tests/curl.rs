use broquest::curl::{parse_curl, to_curl, tokenize_curl};
use broquest::domain::{HttpMethod, KeyValuePair, RequestData};

#[test]
fn test_parse_simple_get() {
    let result = parse_curl("curl https://example.com").unwrap();
    assert_eq!(result.method, HttpMethod::Get);
    assert_eq!(result.url, "https://example.com");
    assert!(result.headers.is_empty());
    assert!(result.body.is_none());
}

#[test]
fn test_parse_post_with_headers_and_body() {
    let result = parse_curl(
        r#"curl -X POST https://api.example.com/users \
               -H 'Content-Type: application/json' \
               -H 'Authorization: Bearer token123' \
               -d '{"name": "John"}'"#,
    )
    .unwrap();
    assert_eq!(result.method, HttpMethod::Post);
    assert_eq!(result.url, "https://api.example.com/users");
    assert_eq!(result.headers.len(), 2);
    assert_eq!(result.headers[0].key, "Content-Type");
    assert_eq!(result.headers[0].value, "application/json");
    assert_eq!(result.body.unwrap(), r#"{"name": "John"}"#);
}

#[test]
fn test_parse_basic_auth() {
    let result = parse_curl("curl -u user:pass https://example.com").unwrap();
    assert_eq!(
        result.basic_auth,
        Some(("user".to_string(), "pass".to_string()))
    );
}

#[test]
fn test_parse_patch() {
    let result = parse_curl("curl -X PATCH https://example.com/resource -d 'updated'").unwrap();
    assert_eq!(result.method, HttpMethod::Patch);
    assert_eq!(result.body.unwrap(), "updated");
}

#[test]
fn test_parse_with_double_quotes() {
    let result = parse_curl(
        r#"curl -X POST "https://example.com" -H "Content-Type: application/json" -d "{\"key\": \"value\""}"#,
    )
    .unwrap();
    assert_eq!(result.method, HttpMethod::Post);
    assert_eq!(result.url, "https://example.com");
    assert_eq!(result.body.unwrap(), r#"{"key": "value"}"#);
}

#[test]
fn test_parse_implicit_post_with_data() {
    let result = parse_curl("curl -d 'hello' https://example.com").unwrap();
    assert_eq!(result.method, HttpMethod::Post);
    assert_eq!(result.body.unwrap(), "hello");
}

#[test]
fn test_parse_get_with_data_flag() {
    let result = parse_curl("curl -G -d 'q=test' https://example.com/search").unwrap();
    assert_eq!(result.method, HttpMethod::Get);
    assert_eq!(result.body.unwrap(), "q=test");
}

#[test]
fn test_parse_ignores_unknown_flags() {
    let result = parse_curl("curl -s -k -L https://example.com").unwrap();
    assert_eq!(result.method, HttpMethod::Get);
    assert_eq!(result.url, "https://example.com");
}

#[test]
fn test_not_curl_returns_none() {
    assert!(parse_curl("https://example.com").is_none());
    assert!(parse_curl("").is_none());
}

#[test]
fn test_to_curl_simple() {
    let request = RequestData {
        name: "Test".to_string(),
        method: HttpMethod::Post,
        url: "https://api.example.com/users".to_string(),
        headers: vec![KeyValuePair {
            key: "Content-Type".to_string(),
            value: "application/json".to_string(),
            enabled: true,
        }],
        body: r#"{"name": "John"}"#.to_string(),
        ..Default::default()
    };
    let curl = to_curl(&request);
    assert!(curl.contains("curl"));
    assert!(curl.contains("-X POST"));
    assert!(curl.contains("-H 'Content-Type: application/json'"));
    assert!(curl.contains("-d '{\"name\": \"John\"}'"));
    assert!(curl.contains("'https://api.example.com/users'"));
}

#[test]
fn test_to_curl_skips_disabled_headers() {
    let request = RequestData {
        name: "Test".to_string(),
        method: HttpMethod::Get,
        url: "https://example.com".to_string(),
        headers: vec![
            KeyValuePair {
                key: "Accept".to_string(),
                value: "application/json".to_string(),
                enabled: true,
            },
            KeyValuePair {
                key: "X-Disabled".to_string(),
                value: "true".to_string(),
                enabled: false,
            },
        ],
        ..Default::default()
    };
    let curl = to_curl(&request);
    assert!(curl.contains("-H 'Accept: application/json'"));
    assert!(!curl.contains("X-Disabled"));
}

#[test]
fn test_roundtrip() {
    let original = "curl -X PUT https://api.example.com/items/1 -H 'Content-Type: application/json' -d '{\"name\": \"test\"}'";
    let parsed = parse_curl(original).unwrap();
    let request = RequestData {
        name: String::new(),
        method: parsed.method,
        url: parsed.url,
        headers: parsed.headers,
        body: parsed.body.unwrap_or_default(),
        ..Default::default()
    };
    let curl_output = to_curl(&request);
    let reparsed = parse_curl(&curl_output).unwrap();
    assert_eq!(reparsed.method, HttpMethod::Put);
    assert_eq!(reparsed.url, "https://api.example.com/items/1");
}

#[test]
fn to_curl_exact_layout() {
    let request = RequestData {
        method: HttpMethod::Put,
        url: "https://x.test/a".to_string(),
        headers: vec![KeyValuePair {
            key: "It's".to_string(),
            value: "v".to_string(),
            enabled: true,
        }],
        body: "b".to_string(),
        ..Default::default()
    };
    assert_eq!(
        to_curl(&request),
        "curl \\\n  -X PUT \\\n  -H 'It'\\''s: v' \\\n  -d 'b' \\\n  'https://x.test/a'"
    );
}

#[test]
fn to_curl_omits_body_for_get() {
    let request = RequestData {
        method: HttpMethod::Get,
        url: "u".to_string(),
        body: "ignored".to_string(),
        ..Default::default()
    };
    assert_eq!(to_curl(&request), "curl \\\n  -X GET \\\n  'u'");
}

#[test]
fn parse_form_adds_multipart_header() {
    let p = parse_curl("curl -F 'file=@a.txt' https://up.test").unwrap();
    assert!(p.is_multipart);
    assert_eq!(p.method, HttpMethod::Post);
    assert_eq!(p.headers.len(), 1);
    assert_eq!(p.headers[0].key, "Content-Type");
    assert_eq!(p.headers[0].value, "multipart/form-data");
}

#[test]
fn parse_form_keeps_existing_content_type() {
    let p = parse_curl("curl -H 'content-type: x' -F 'a=b' https://up.test").unwrap();
    assert_eq!(p.headers.len(), 1);
    assert_eq!(p.headers[0].value, "x");
}

#[test]
fn parse_user_without_password() {
    let p = parse_curl("curl --user alice https://e.test").unwrap();
    assert_eq!(p.basic_auth, Some(("alice".to_string(), String::new())));
}

#[test]
fn parse_without_url_is_none() {
    assert!(parse_curl("curl -X POST").is_none());
    assert!(parse_curl("curl -H 'a: b'").is_none());
}

#[test]
fn parse_url_flag_and_lowercase_method() {
    let p = parse_curl("curl --request delete --url https://e.test/1").unwrap();
    assert_eq!(p.method, HttpMethod::Delete);
    assert_eq!(p.url, "https://e.test/1");
}

#[test]
fn parse_unknown_method_is_get() {
    let p = parse_curl("curl -X FETCH https://e.test").unwrap();
    assert_eq!(p.method, HttpMethod::Get);
}

#[test]
fn tokenize_quotes_and_variables() {
    let t = tokenize_curl("curl 'a b' \"c\\nd\" $VAR'x' e").unwrap();
    assert_eq!(t, vec!["curl", "a b", "c\nd", "$VARx", "e"]);
}

#[test]
fn tokenize_trailing_backslash_in_double_quotes_fails() {
    assert!(tokenize_curl("curl \"abc\\").is_none());
    assert!(parse_curl("curl \"abc\\").is_none());
}

#[test]
fn tokenize_line_continuations() {
    let t = tokenize_curl("curl \\\n  -G \\\r\n x").unwrap();
    assert_eq!(t, vec!["curl", "-G", "x"]);
}

#[test]
fn curl_round_trip_keeps_enabled_headers() {
    let request = RequestData {
        name: "Rt".to_string(),
        method: HttpMethod::Put,
        url: "https://api.example.com/items/1".to_string(),
        headers: vec![
            KeyValuePair { key: "Accept".to_string(), value: "*/*".to_string(), enabled: true },
            KeyValuePair { key: "X-Off".to_string(), value: "no".to_string(), enabled: false },
            KeyValuePair { key: "".to_string(), value: "unnamed".to_string(), enabled: true },
            KeyValuePair { key: "X-Empty".to_string(), value: "".to_string(), enabled: true },
        ],
        body: "payload".to_string(),
        ..Default::default()
    };
    let back = parse_curl(&to_curl(&request)).unwrap();
    assert_eq!(back.method, HttpMethod::Put);
    assert_eq!(back.url, "https://api.example.com/items/1");
    assert_eq!(back.body.as_deref(), Some("payload"));
    let headers: Vec<(String, String)> = back.headers.iter().map(|h| (h.key.clone(), h.value.clone())).collect();
    assert_eq!(
        headers,
        vec![("Accept".to_string(), "*/*".to_string()), ("X-Empty".to_string(), "".to_string())]
    );
    assert!(back.basic_auth.is_none());
    assert!(!back.is_multipart);
}
