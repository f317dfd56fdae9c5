use broquest::client::{apply_query_parameters, auth_headers, digest_uri, response_data, HttpError, ResponseFormat};
use broquest::domain::{AuthType, BasicAuth, KeyAuth, KeyValuePair};

fn kv(key: &str, value: &str, enabled: bool) -> KeyValuePair {
    KeyValuePair { key: key.to_string(), value: value.to_string(), enabled }
}

#[test]
fn client_test_content_type_detection() {
    assert_eq!(ResponseFormat::from_content_type("application/json"), ResponseFormat::Json);
    assert_eq!(ResponseFormat::from_content_type("text/html"), ResponseFormat::Html);
    assert_eq!(ResponseFormat::from_content_type("application/xml"), ResponseFormat::Xml);
    assert_eq!(ResponseFormat::from_content_type("text/plain"), ResponseFormat::PlainText);
    assert_eq!(ResponseFormat::from_content_type("application/octet-stream"), ResponseFormat::Binary);
}

#[test]
fn test_content_detection() {
    let json_content = r#"{"key": "value"}"#;
    let headers = vec![kv("content-type", "application/json", true)];
    assert_eq!(ResponseFormat::detect_from_content(json_content, &headers), ResponseFormat::Json);
}

#[test]
fn test_json_formatting() {
    let format = ResponseFormat::Json;
    let compact_json = r#"{"name":"John","age":30,"city":"New York"}"#;
    let expected_pretty = r#"{
  "name": "John",
  "age": 30,
  "city": "New York"
}"#;
    assert_eq!(format.format_content(compact_json), expected_pretty);
    let invalid_json = r#"{"name":"John","age":30,"city":"New York""#;
    assert_eq!(format.format_content(invalid_json), invalid_json);
}

#[test]
fn test_non_json_formatting() {
    let format = ResponseFormat::PlainText;
    let text_content = "Just some plain text";
    assert_eq!(format.format_content(text_content), text_content);

    let format = ResponseFormat::Xml;
    let xml_content = "<root><item>value</item></root>";
    assert_eq!(format.format_content(xml_content), "<root>\n  <item>value</item>\n</root>");
}

#[test]
fn content_detection_without_header_sniffs_the_text() {
    let none: Vec<KeyValuePair> = vec![];
    assert_eq!(ResponseFormat::detect_from_content("  [1, 2]", &none), ResponseFormat::Json);
    assert_eq!(ResponseFormat::detect_from_content("<?xml version=\"1.0\"?><a/>", &none), ResponseFormat::Xml);
    assert_eq!(ResponseFormat::detect_from_content("<!DOCTYPE html><html></html>", &none), ResponseFormat::Xml);
    assert_eq!(ResponseFormat::detect_from_content("<html><body>hi", &none), ResponseFormat::Html);
    assert_eq!(ResponseFormat::detect_from_content("hello", &none), ResponseFormat::Unknown);
    assert_eq!(ResponseFormat::Json.language_string(), "json");
}

#[test]
fn query_parameters_are_encoded_and_appended() {
    let params = vec![kv("q", "a b", true), kv("off", "x", false), kv("", "y", true), kv("n", "1", true)];
    assert_eq!(apply_query_parameters("https://e.com/s", &params), "https://e.com/s?q=a%20b&n=1");
    assert_eq!(apply_query_parameters("https://e.com/s?old=1#frag", &params), "https://e.com/s?old=1?q=a%20b&n=1");
    assert_eq!(apply_query_parameters("https://e.com/s?old=1", &params), "https://e.com/s?q=a%20b&n=1");
    assert_eq!(apply_query_parameters("https://e.com/s", &[]), "https://e.com/s");
}

#[test]
fn basic_auth_header_is_base64() {
    let auth = AuthType::Basic(BasicAuth { username: "user".to_string(), password: "pass".to_string() });
    let hs = auth_headers(&auth);
    assert_eq!(hs.len(), 1);
    assert_eq!(hs[0].key, "Authorization");
    assert_eq!(hs[0].value, "Basic dXNlcjpwYXNz");
}

#[test]
fn api_key_auth_header() {
    let auth = AuthType::Key(KeyAuth { header: "X-Custom-Auth".to_string(), value: "my-secret-key-123".to_string() });
    let hs = auth_headers(&auth);
    assert_eq!(hs.len(), 1);
    assert_eq!(hs[0].key, "X-Custom-Auth");
    assert_eq!(hs[0].value, "my-secret-key-123");
    assert!(auth_headers(&AuthType::NoAuth).is_empty());
}

#[test]
fn digest_uri_is_the_path() {
    assert_eq!(digest_uri("http://host:8080/test?x=1"), "/test?x=1");
    assert_eq!(digest_uri("http://host"), "/");
    assert_eq!(digest_uri("no-scheme/path"), "/");
}

#[test]
fn http_error_message() {
    let e = HttpError::new("Request failed", "timeout");
    assert_eq!(e.message(), "timeout");
}

#[test]
fn response_record() {
    let r = response_data(
        200,
        Some("OK".to_string()),
        std::time::Duration::from_millis(12),
        vec![kv("content-type", "text/plain", true)],
        vec![],
        "héllo".to_string(),
        "https://e.com".to_string(),
    );
    assert_eq!(r.status_code, Some(200));
    assert_eq!(r.size, Some(6));
    assert_eq!(r.url.as_deref(), Some("https://e.com"));
    assert_eq!(r.latency, Some(std::time::Duration::from_millis(12)));
}
