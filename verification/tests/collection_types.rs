use broquest::collection_types::{
    create_body_toml, create_empty_collection, get_body_type_from_headers, is_true, GraphQLBody, HeaderToml,
    QueryToml, RequestBodyToml, RequestHttp, RequestMeta, RequestParams, RequestScript, RequestToml,
};
use broquest::domain::{HttpMethod, KeyValuePair, RequestData};
use broquest::vars::VarMap;

fn kv(key: &str, value: &str, enabled: bool) -> KeyValuePair {
    KeyValuePair { key: key.to_string(), value: value.to_string(), enabled }
}

fn request(name: &str, body: &str, content_type: &str) -> RequestData {
    RequestData {
        name: name.to_string(),
        method: HttpMethod::Post,
        url: "https://api.example.com".to_string(),
        body: body.to_string(),
        headers: vec![kv("Content-Type", content_type, true)],
        ..Default::default()
    }
}

#[test]
fn collection_types_test_content_type_detection() {
    let request_data_json = request("JSON Request", r#"{"key": "value"}"#, "application/json");
    let toml_request = RequestToml::from_request(request_data_json);
    assert_eq!(toml_request.http.body.unwrap(), "json");
    assert!(toml_request.body.is_some());
    assert!(toml_request.body.unwrap().json.is_some());

    let request_data_form = request("Form Request", "key=value&foo=bar", "application/x-www-form-urlencoded");
    let toml_form_request = RequestToml::from_request(request_data_form);
    assert_eq!(toml_form_request.http.body.unwrap(), "form");
    assert!(toml_form_request.body.is_some());
    assert!(toml_form_request.body.unwrap().form.is_some());
}

#[test]
fn body_type_from_headers() {
    assert_eq!(get_body_type_from_headers(&[]), "json");
    assert_eq!(get_body_type_from_headers(&[kv("content-type", "Text/XML", true)]), "xml");
    assert_eq!(get_body_type_from_headers(&[kv("Content-Type", "text/xml", false)]), "json");
    assert_eq!(
        get_body_type_from_headers(&[kv("Content-Type", "image/png", true), kv("CONTENT-TYPE", "text/plain", true)]),
        "text"
    );
    assert_eq!(get_body_type_from_headers(&[kv("Content-Type", "application/graphql", true)]), "graphql");
}

#[test]
fn form_bodies_are_decoded() {
    let b = create_body_toml("a=1&b=hello%20world&bad&c=%FF&a=2", "form").unwrap();
    let f = b.form.unwrap();
    assert_eq!(f.len(), 2);
    assert_eq!(f.get("a").unwrap(), "2");
    assert_eq!(f.get("b").unwrap(), "hello world");
    assert!(f.get("c").is_none());
    assert!(b.json.is_none());
}

#[test]
fn graphql_bodies_are_split() {
    let b = create_body_toml(r#"{"query":"{ a }","variables":{"x":1}}"#, "graphql").unwrap();
    let g = b.graphql.unwrap();
    assert_eq!(g.query.unwrap(), "{ a }");
    assert_eq!(g.variables.unwrap(), r#"{"x":1}"#);
    let t = create_body_toml("[1]", "graphql").unwrap();
    assert_eq!(t.text.unwrap(), "[1]");
    let other = create_body_toml("x", "weird").unwrap();
    assert_eq!(other.json.unwrap(), "x");
}

fn file(method: &str, body_type: Option<&str>, body: Option<RequestBodyToml>) -> RequestToml {
    RequestToml {
        meta: RequestMeta { name: "Req".to_string(), request_type: "http".to_string(), seq: "1".to_string() },
        http: RequestHttp {
            method: method.to_string(),
            url: "https://e.com".to_string(),
            body: body_type.map(|s| s.to_string()),
            auth: "none".to_string(),
        },
        script: Some(RequestScript { pre_request: Some("pre()".to_string()), post_response: None }),
        headers: Some(vec![HeaderToml { key: "Accept".to_string(), value: "*/*".to_string() }]),
        query: Some(vec![QueryToml { key: "q".to_string(), value: "1".to_string() }]),
        body,
        params: None,
    }
}

#[test]
fn loading_request_files() {
    let r = RequestData::from_toml(file("patch", Some("none"), None));
    assert_eq!(r.method, HttpMethod::Patch);
    assert_eq!(r.body, "");
    assert_eq!(r.headers[0].key, "Accept");
    assert!(r.headers[0].enabled);
    assert_eq!(r.query_params[0].value, "1");
    assert_eq!(r.pre_request_script.as_deref(), Some("pre()"));

    let r = RequestData::from_toml(file("bogus", Some("raw text"), None));
    assert_eq!(r.method, HttpMethod::Get);
    assert_eq!(r.body, "raw text");

    let mut form = VarMap::new();
    form.insert("a b".to_string(), "1&2".to_string());
    form.insert("c".to_string(), "3".to_string());
    let section = RequestBodyToml { json: None, text: None, form: Some(form), graphql: None, xml: None };
    let r = RequestData::from_toml(file("POST", Some("form"), Some(section)));
    assert_eq!(r.body, "a%20b=1%262&c=3");

    let section = RequestBodyToml {
        json: None,
        text: None,
        form: None,
        graphql: Some(GraphQLBody { query: Some("{ \"x\" }".to_string()), variables: None }),
        xml: None,
    };
    let r = RequestData::from_toml(file("POST", Some("graphql"), Some(section)));
    assert_eq!(r.body, r#"{"query":"{ \"x\" }","variables":{}}"#);
}

#[test]
fn saving_and_loading_a_request() {
    let mut data = request("Create", r#"{"n": 1}"#, "application/json");
    data.path_params = vec![kv("id", "7", true), kv("", "x", true), kv("off", "y", false)];
    data.query_params = vec![kv("verbose", "1", false)];
    let saved = RequestToml::from_request(data.clone());
    assert_eq!(saved.http.method, "POST");
    assert_eq!(saved.http.auth, "none");
    let params: &RequestParams = saved.params.as_ref().unwrap();
    assert_eq!(params.path.as_ref().unwrap().len(), 1);
    assert!(saved.script.is_none());
    let back = RequestData::from_toml(saved);
    assert_eq!(back.name, data.name);
    assert_eq!(back.method, data.method);
    assert_eq!(back.url, data.url);
    assert_eq!(back.body, data.body);
    assert_eq!(back.headers, data.headers);
    assert_eq!(back.query_params.len(), 1);
    assert!(back.query_params[0].enabled);
    assert_eq!(back.path_params, vec![kv("id", "7", true)]);
}

#[test]
fn empty_collection_and_flags() {
    let c = create_empty_collection();
    assert_eq!(c.collection.version, "1.0.0");
    assert_eq!(c.collection.collection_type, "collection");
    assert!(c.collection.name.is_empty());
    assert!(c.environments.is_empty());
    assert!(is_true(&true));
    assert!(!is_true(&false));
}

#[test]
fn head_and_options_files_load_as_get() {
    assert_eq!(RequestData::from_toml(file("HEAD", Some("none"), None)).method, HttpMethod::Get);
    assert_eq!(RequestData::from_toml(file("options", Some("none"), None)).method, HttpMethod::Get);
    assert_eq!(RequestData::from_toml(file("delete", Some("none"), None)).method, HttpMethod::Delete);
}
