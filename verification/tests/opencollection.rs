use broquest::collection_types::{EnvironmentToml, EnvironmentVariable};
use broquest::data::DataValue;
use broquest::domain::{AuthType, HttpMethod, KeyValuePair, OAuth2Auth, RequestData};
use broquest::oc_collection::{
    assemble_bundled_file, build_folder_config, build_folder_item, build_unbundled_root, decompose_bundled, decompose_unbundled, docs_value_to_markdown,
    is_request_file_name, unbundled_group, LoadedCollection,
};
use broquest::oc_env::{env_toml_to_oc, merge_env, oc_environment_to_toml};
use broquest::oc_merge::{merge_headers, merge_params, merge_request_into_item, request_to_oc_body, var_to_oc_value};
use broquest::opencollection::{
    oc_auth_to_authtype, oc_body_to_string, oc_item_to_request, OcConfig, OcEnvironment, OcHeader, OcHttp, OcInfo,
    OcItem, OcItemInfo, OcParam, OcRuntime, OcScript, OpenCollectionFile,
};

fn s(x: &str) -> DataValue {
    DataValue::Str(x.to_string())
}

fn map(entries: Vec<(&str, DataValue)>) -> DataValue {
    DataValue::Mapping(entries.into_iter().map(|(k, v)| (s(k), v)).collect())
}

fn kv(key: &str, value: &str, enabled: bool) -> KeyValuePair {
    KeyValuePair { key: key.to_string(), value: value.to_string(), enabled }
}

fn header(name: &str, value: &str, disabled: bool) -> OcHeader {
    OcHeader { name: name.to_string(), value: value.to_string(), description: None, disabled, extra: Vec::new() }
}

fn param(name: &str, value: &str, t: &str) -> OcParam {
    OcParam {
        name: name.to_string(),
        value: value.to_string(),
        param_type: t.to_string(),
        description: None,
        disabled: false,
        extra: Vec::new(),
    }
}

fn info(name: &str, t: &str) -> Option<OcItemInfo> {
    Some(OcItemInfo {
        name: name.to_string(),
        item_type: t.to_string(),
        description: None,
        seq: None,
        tags: None,
        extra: Vec::new(),
    })
}

fn item(info: Option<OcItemInfo>, http: Option<OcHttp>, items: Option<Vec<OcItem>>, runtime: Option<OcRuntime>) -> OcItem {
    OcItem {
        info,
        script_file_type: None,
        http,
        graphql: None,
        items,
        runtime,
        settings: None,
        examples: None,
        docs: None,
        script: None,
        extra: Vec::new(),
    }
}

fn http(method: &str, url: &str, headers: Vec<OcHeader>, params: Vec<OcParam>, body: Option<DataValue>, auth: Option<DataValue>) -> OcHttp {
    OcHttp {
        method: method.to_string(),
        url: url.to_string(),
        headers,
        params,
        body,
        auth,
        broquest_auth: None,
        extra: Vec::new(),
    }
}

fn script(t: &str, code: &str) -> OcScript {
    OcScript { script_type: t.to_string(), code: code.to_string(), extra: Vec::new() }
}

/// The sample collection: a bundled document with one request at the root,
/// a folder with one request, one environment and an unmodeled extension.
fn fixture() -> OpenCollectionFile {
    let login = item(
        info("Login", "http"),
        Some(http(
            "POST",
            "https://api.example.com/login",
            vec![header("Content-Type", "application/json", false), header("X-Debug", "1", true)],
            vec![param("verbose", "true", "query"), param("id", "42", "path")],
            Some(map(vec![("type", s("json")), ("data", s(r#"{"user":"a"}"#))])),
            Some(map(vec![("type", s("basic")), ("username", s("admin")), ("password", s("secret"))])),
        )),
        None,
        Some(OcRuntime {
            scripts: vec![script("before-request", "console.log('pre')"), script("after-response", "console.log('post')")],
            variables: None,
            extra: Vec::new(),
        }),
    );
    let get_user = item(
        info("Get User", "http"),
        Some(http(
            "GET",
            "https://api.example.com/users/1",
            Vec::new(),
            Vec::new(),
            None,
            Some(map(vec![("type", s("ntlm")), ("username", s("u")), ("password", s("p")), ("domain", s("d"))])),
        )),
        None,
        None,
    );
    let users = item(info("Users", "folder"), None, Some(vec![get_user]), None);
    let env = OcEnvironment {
        name: "Development".to_string(),
        color: None,
        variables: vec![
            map(vec![("name", s("BASE_URL")), ("value", s("https://api.example.com"))]),
            map(vec![("secret", DataValue::Bool(true)), ("name", s("API_KEY")), ("type", s("string"))]),
        ],
        extra: Vec::new(),
    };
    OpenCollectionFile {
        opencollection: "1.0.0".to_string(),
        info: OcInfo { name: "Sample API".to_string(), version: Some("2.0.0".to_string()), extra: Vec::new() },
        config: Some(OcConfig { environments: vec![env], extra: Vec::new() }),
        request: None,
        items: vec![login, users],
        docs: Some(s("A sample collection")),
        bundled: Some(true),
        extra: vec![(s("extensions"), map(vec![("vendor", s("custom-data"))]))],
    }
}

fn env_var<'a>(env: &'a EnvironmentToml, name: &str) -> &'a EnvironmentVariable {
    &env.variables.iter().find(|(n, _)| n == name).unwrap().1
}

/// Rebuild a bundled file from a loaded collection, preserving per-item
/// sources.
fn rebuild_bundled(loaded: &LoadedCollection) -> OpenCollectionFile {
    let mut items: Vec<OcItem> =
        loaded.root_requests.iter().map(|lr| merge_request_into_item(Some(&lr.source), &lr.request)).collect();
    for group in &loaded.groups {
        let children =
            group.requests.iter().map(|lr| merge_request_into_item(Some(&lr.source), &lr.request)).collect();
        items.push(build_folder_item(group.source.as_ref(), &group.name, children));
    }
    let environments = loaded.environments.iter().map(|e| merge_env(Some(&e.source), &e.toml)).collect();
    assemble_bundled_file(
        Some(&loaded.file),
        &loaded.name,
        &loaded.version,
        loaded.docs.as_deref(),
        items,
        environments,
        &loaded.vars,
    )
}

fn extra_get<'a>(extra: &'a [(DataValue, DataValue)], key: &str) -> Option<&'a DataValue> {
    extra.iter().find(|(k, _)| *k == s(key)).map(|(_, v)| v)
}

#[test]
fn test_parse_bundled_fixture() {
    let loaded = decompose_bundled(fixture());
    assert_eq!(loaded.name, "Sample API");
    assert_eq!(loaded.version, "2.0.0");
    assert_eq!(loaded.docs.as_deref(), Some("A sample collection"));
    assert_eq!(loaded.file.bundled, Some(true));
    assert_eq!(loaded.root_requests.len(), 1);
    assert_eq!(loaded.groups.len(), 1);
    assert_eq!(loaded.groups[0].name, "Users");
    assert_eq!(loaded.groups[0].requests.len(), 1);
    assert_eq!(loaded.environments.len(), 1);
    let env = &loaded.environments[0].toml;
    assert_eq!(env.name, "Development");
    assert_eq!(env_var(env, "BASE_URL").value, "https://api.example.com");
    assert!(env_var(env, "API_KEY").secret);
    assert!(env_var(env, "API_KEY").value.is_empty());
}

#[test]
fn test_request_mapping() {
    let loaded = decompose_bundled(fixture());
    let login = &loaded.root_requests[0].request;
    assert_eq!(login.name, "Login");
    assert_eq!(login.method, HttpMethod::Post);
    assert_eq!(login.url, "https://api.example.com/login");
    assert_eq!(login.body, r#"{"user":"a"}"#);
    assert!(login.headers.iter().any(|h| h.key == "X-Debug" && !h.enabled));
    assert!(login.query_params.iter().any(|p| p.key == "verbose"));
    assert!(login.path_params.iter().any(|p| p.key == "id"));
    assert!(matches!(login.auth, AuthType::Basic(ref b) if b.username == "admin" && b.password == "secret"));
    assert_eq!(login.pre_request_script.as_deref(), Some("console.log('pre')"));
    assert_eq!(login.post_response_script.as_deref(), Some("console.log('post')"));

    let get_user = &loaded.groups[0].requests[0].request;
    assert!(matches!(get_user.auth, AuthType::Unsupported { ref kind, .. } if kind == "ntlm"));
}

#[test]
fn test_roundtrip_modeled_fields() {
    let loaded = decompose_bundled(fixture());
    let reloaded = decompose_bundled(rebuild_bundled(&loaded));

    assert_eq!(reloaded.name, loaded.name);
    assert_eq!(reloaded.root_requests.len(), loaded.root_requests.len());
    assert_eq!(reloaded.groups.len(), loaded.groups.len());

    let a = &loaded.root_requests[0].request;
    let b = &reloaded.root_requests[0].request;
    assert_eq!(a, b, "request should survive the round-trip unchanged");

    assert_eq!(loaded.groups[0].requests[0].request.auth, reloaded.groups[0].requests[0].request.auth);
}

#[test]
fn test_preserve_unknown_top_level_fields() {
    let loaded = decompose_bundled(fixture());
    let rebuilt = rebuild_bundled(&loaded);
    let ext = extra_get(&rebuilt.extra, "extensions").expect("extensions");
    assert_eq!(*ext, map(vec![("vendor", s("custom-data"))]));
}

#[test]
fn test_roundtrip_oauth2_via_extension() {
    let mut req = RequestData {
        name: "OAuth".to_string(),
        method: HttpMethod::Get,
        url: "https://api.example.com".to_string(),
        auth: AuthType::OAuth2(OAuth2Auth {
            client_id: "cid".to_string(),
            client_secret: "csecret".to_string(),
            token_url: "https://auth/token".to_string(),
            ..Default::default()
        }),
        ..Default::default()
    };
    req.headers.clear();

    let item = merge_request_into_item(None, &req);
    let back = oc_item_to_request(&item).expect("request");
    match back.auth {
        AuthType::OAuth2(o) => {
            assert_eq!(o.client_id, "cid");
            assert_eq!(o.client_secret, "csecret");
            assert_eq!(o.token_url, "https://auth/token");
        }
        other => panic!("expected OAuth2, got {:?}", other),
    }
}

#[test]
fn test_request_vars_roundtrip() {
    let req = RequestData {
        name: "With Vars".to_string(),
        method: HttpMethod::Get,
        url: "https://api.example.com".to_string(),
        vars: vec![kv("token", "abc", true), kv("region", "eu", false)],
        ..Default::default()
    };
    let item = merge_request_into_item(None, &req);
    assert!(
        item.runtime.as_ref().and_then(|r| r.variables.as_ref()).is_some(),
        "vars should be written to runtime.variables"
    );
    let back = oc_item_to_request(&item).expect("request");
    assert!(KeyValuePair::vec_equals(&req.vars, &back.vars));
}

#[test]
fn test_collection_vars_roundtrip() {
    let mut loaded = decompose_bundled(fixture());
    loaded.vars = vec![kv("namespace", "production", true), kv("feature.flag", "on", false)];

    let rebuilt = rebuild_bundled(&loaded);
    assert!(extra_get(&rebuilt.extra, "x-broquest-vars").is_some(), "vars key missing");

    let reloaded = decompose_bundled(rebuilt);
    assert_eq!(reloaded.vars.len(), 2);
    assert_eq!(reloaded.vars[0].key, "namespace");
    assert_eq!(reloaded.vars[0].value, "production");
    assert!(reloaded.vars[0].enabled);
    assert_eq!(reloaded.vars[1].key, "feature.flag");
    assert!(!reloaded.vars[1].enabled);

    let no_vars = decompose_bundled(fixture());
    let rebuilt_none = rebuild_bundled(&no_vars);
    assert!(extra_get(&rebuilt_none.extra, "x-broquest-vars").is_none(), "vars key should be absent");
    let reloaded_none = decompose_bundled(rebuilt_none);
    assert!(reloaded_none.vars.is_empty());
}

#[test]
fn test_docs_roundtrip() {
    let mut loaded = decompose_bundled(fixture());
    assert_eq!(loaded.docs.as_deref(), Some("A sample collection"));

    let edited = "# My Collection\n\nSome **markdown** docs.\n".to_string();
    loaded.docs = Some(edited.clone());
    let rebuilt = rebuild_bundled(&loaded);
    assert_eq!(rebuilt.docs, Some(s(&edited)));

    let reloaded = decompose_bundled(rebuilt);
    assert_eq!(reloaded.docs.as_deref(), Some(edited.as_str()));
}

#[test]
fn test_docs_array_blocks_extracted_best_effort() {
    let docs = DataValue::List(vec![
        s("First paragraph."),
        map(vec![("text", s("Second paragraph."))]),
        map(vec![("type", s("image")), ("src", s("ignored.png"))]),
    ]);
    let file = OpenCollectionFile {
        opencollection: "1.0.0".to_string(),
        info: OcInfo { name: "Blocked".to_string(), version: None, extra: Vec::new() },
        config: None,
        request: None,
        items: Vec::new(),
        docs: Some(docs),
        bundled: None,
        extra: Vec::new(),
    };
    let loaded = decompose_bundled(file);
    let docs = loaded.docs.expect("docs should be extracted");
    assert!(docs.contains("First paragraph."));
    assert!(docs.contains("Second paragraph."));
    assert_eq!(docs, "First paragraph.\n\nSecond paragraph.");
    assert_eq!(loaded.version, "1.0.0");
}

#[test]
fn unchanged_request_gives_back_its_item() {
    let loaded = decompose_bundled(fixture());
    let lr = &loaded.root_requests[0];
    let mut source = merge_request_into_item(None, &lr.request);
    source.settings = Some(map(vec![("timeout", DataValue::Number("30".to_string()))]));
    let back = oc_item_to_request(&source).unwrap();
    let again = merge_request_into_item(Some(&source), &back);
    assert_eq!(again.settings, source.settings);
    assert_eq!(oc_item_to_request(&again).unwrap(), back);
}

#[test]
fn changed_request_keeps_unmodeled_fields() {
    let loaded = decompose_bundled(fixture());
    let lr = &loaded.root_requests[0];
    let mut source = merge_request_into_item(Some(&lr.source), &lr.request);
    source.settings = Some(map(vec![("timeout", DataValue::Number("30".to_string()))]));
    source.http.as_mut().unwrap().headers[0].description = Some(s("the body type"));
    let mut req = lr.request.clone();
    req.url = "https://api.example.com/v2/login".to_string();
    let merged = merge_request_into_item(Some(&source), &req);
    assert_eq!(merged.settings, source.settings);
    let h = merged.http.as_ref().unwrap();
    assert_eq!(h.url, "https://api.example.com/v2/login");
    assert_eq!(h.headers[0].description, Some(s("the body type")));
    assert_eq!(oc_item_to_request(&merged).unwrap(), req);
}

#[test]
fn auth_kinds_are_read() {
    let bearer = oc_auth_to_authtype(&map(vec![("type", s("bearer")), ("token", s("t0k"))]));
    assert!(matches!(bearer, AuthType::Key(ref k) if k.header == "Authorization" && k.value == "Bearer t0k"));
    let apikey = oc_auth_to_authtype(&map(vec![("type", s("apikey")), ("value", s("v"))]));
    assert!(matches!(apikey, AuthType::Key(ref k) if k.header == "X-API-Key" && k.value == "v"));
    let query_key = oc_auth_to_authtype(&map(vec![("type", s("apikey")), ("placement", s("query"))]));
    assert!(matches!(query_key, AuthType::Unsupported { ref kind, .. } if kind == "apikey"));
    assert_eq!(oc_auth_to_authtype(&s("inherit")), AuthType::Inherit);
    assert!(matches!(oc_auth_to_authtype(&s("none")), AuthType::Unsupported { ref kind, .. } if kind == "none"));
    assert!(matches!(oc_auth_to_authtype(&map(vec![])), AuthType::Unsupported { ref kind, .. } if kind == "unknown"));
    assert!(matches!(oc_auth_to_authtype(&DataValue::Null), AuthType::Unsupported { ref kind, .. } if kind == "unknown"));
}

#[test]
fn form_and_graphql_bodies_are_read() {
    let mut headers = Vec::new();
    let form = map(vec![
        ("type", s("form-urlencoded")),
        (
            "data",
            DataValue::List(vec![
                map(vec![("name", s("a b")), ("value", s("1&2"))]),
                map(vec![("name", s("skip")), ("value", s("x")), ("disabled", DataValue::Bool(true))]),
                map(vec![("name", s("c")), ("value", s("3"))]),
            ]),
        ),
    ]);
    assert_eq!(oc_body_to_string(&form, &mut headers), "a%20b=1%262&c=3");
    assert_eq!(headers, vec![kv("Content-Type", "application/x-www-form-urlencoded", true)]);

    let mut headers = vec![kv("content-type", "text/plain", true)];
    let graphql = map(vec![("query", s("{ me { id } }")), ("variables", s("{ \"a\" : [1, 2] }"))]);
    assert_eq!(oc_body_to_string(&graphql, &mut headers), r#"{"query":"{ me { id } }","variables":{"a":[1,2]}}"#);
    assert_eq!(headers.len(), 1);
    let graphql_bad = map(vec![("query", s("q")), ("variables", s("not json"))]);
    assert_eq!(oc_body_to_string(&graphql_bad, &mut headers), r#"{"query":"q","variables":{}}"#);
    let list = DataValue::List(vec![]);
    assert_eq!(oc_body_to_string(&list, &mut headers), "");
}

#[test]
fn form_body_is_written_as_fields() {
    let req = RequestData {
        body: "a%20b=1&novalue&c=%ZZ".to_string(),
        headers: vec![kv("Content-Type", "application/x-www-form-urlencoded", true)],
        ..Default::default()
    };
    let body = request_to_oc_body(&req).unwrap();
    assert_eq!(
        body,
        map(vec![
            ("type", s("form-urlencoded")),
            (
                "data",
                DataValue::List(vec![
                    map(vec![("name", s("a b")), ("value", s("1"))]),
                    map(vec![("name", s("c")), ("value", s("%ZZ"))]),
                ]),
            ),
        ])
    );
    let xml = RequestData {
        body: "<a/>".to_string(),
        headers: vec![kv("Content-Type", "text/xml", true)],
        ..Default::default()
    };
    assert_eq!(request_to_oc_body(&xml).unwrap(), map(vec![("type", s("xml")), ("data", s("<a/>"))]));
    assert_eq!(request_to_oc_body(&RequestData::default()), None);
}

#[test]
fn variable_keeps_its_description() {
    let source = vec![map(vec![("name", s("token")), ("value", s("old")), ("description", s("d")), ("disabled", DataValue::Bool(true))])];
    let v = var_to_oc_value(&source, &kv("token", "new", true));
    assert_eq!(v, map(vec![("name", s("token")), ("value", s("new")), ("description", s("d"))]));
    let w = var_to_oc_value(&source, &kv("other", "x", false));
    assert_eq!(w, map(vec![("name", s("other")), ("value", s("x")), ("disabled", DataValue::Bool(true))]));
}

#[test]
fn environments_are_written_and_merged() {
    let env = EnvironmentToml {
        name: "Prod".to_string(),
        variables: vec![
            ("host".to_string(), EnvironmentVariable { value: "h".to_string(), secret: false, temporary: false }),
            ("key".to_string(), EnvironmentVariable { value: "s3cr3t".to_string(), secret: true, temporary: false }),
        ],
    };
    let doc = env_toml_to_oc(&env);
    assert_eq!(
        doc.variables,
        vec![
            map(vec![("name", s("host")), ("value", s("h"))]),
            map(vec![("secret", DataValue::Bool(true)), ("name", s("key")), ("type", s("string"))]),
        ]
    );
    let mut source = doc;
    source.color = Some("red".to_string());
    let read = oc_environment_to_toml(&source);
    let same = merge_env(Some(&source), &read);
    assert_eq!(same.color.as_deref(), Some("red"));
    let changed = merge_env(Some(&source), &env);
    assert_eq!(changed.color, None);
    assert_eq!(changed.variables[1], map(vec![("secret", DataValue::Bool(true)), ("name", s("key")), ("type", s("string"))]));
}

#[test]
fn docs_values_to_markdown() {
    assert_eq!(docs_value_to_markdown(&s("x")), Some("x".to_string()));
    assert_eq!(docs_value_to_markdown(&DataValue::List(vec![DataValue::Null])), None);
    assert_eq!(docs_value_to_markdown(&DataValue::Bool(true)), None);
}

#[test]
fn request_file_names() {
    assert!(is_request_file_name("Get User.yml"));
    assert!(is_request_file_name("a.yaml"));
    assert!(!is_request_file_name("opencollection.yml"));
    assert!(!is_request_file_name("opencollection.yaml"));
    assert!(!is_request_file_name("notes.txt"));
}

#[test]
fn directory_tree_collection_is_read() {
    let loaded = decompose_bundled(fixture());
    let users = loaded.groups[0].source.as_ref().unwrap();
    let child = users.items.as_ref().unwrap()[0].clone();
    let folder_doc = build_folder_item(Some(users), "Users", Vec::new());
    let group = unbundled_group(Some(folder_doc), "users-dir", &vec![child.clone(), item(info("Notes", "folder"), None, None, None)]);
    assert_eq!(group.name, "Users");
    assert_eq!(group.requests.len(), 1);
    assert_eq!(group.requests[0].request.name, "Get User");
    let unnamed = unbundled_group(None, "users-dir", &vec![child]);
    assert_eq!(unnamed.name, "users-dir");

    let mut root = fixture();
    let root_items = std::mem::take(&mut root.items);
    let envs = root.config.as_ref().unwrap().environments.clone();
    let tree = decompose_unbundled(root, &envs, &root_items, vec![group]);
    assert_eq!(tree.name, "Sample API");
    assert_eq!(tree.root_requests.len(), 1);
    assert_eq!(tree.environments.len(), 1);
    assert_eq!(tree.groups.len(), 1);
}

#[test]
fn environment_written_and_read_back_keeps_variables_but_secret_values() {
    let env = EnvironmentToml {
        name: "Prod".to_string(),
        variables: vec![
            ("host".to_string(), EnvironmentVariable { value: "h".to_string(), secret: false, temporary: false }),
            ("key".to_string(), EnvironmentVariable { value: "s3cr3t".to_string(), secret: true, temporary: false }),
        ],
    };
    let back = oc_environment_to_toml(&env_toml_to_oc(&env));
    assert_eq!(back.name, "Prod");
    assert_eq!(env_var(&back, "host").value, "h");
    assert!(!env_var(&back, "host").secret);
    assert_eq!(env_var(&back, "key").value, "");
    assert!(env_var(&back, "key").secret);
}

#[test]
fn unbundled_root_has_no_items_or_environments() {
    let base = fixture();
    let root = build_unbundled_root(Some(&base), "Renamed", "9.9.9", None, &[kv("a", "1", true)]);
    assert_eq!(root.info.name, "Renamed");
    assert_eq!(root.info.version.as_deref(), Some("2.0.0"));
    assert_eq!(root.bundled, Some(false));
    assert!(root.items.is_empty());
    assert!(root.config.as_ref().unwrap().environments.is_empty());
    assert_eq!(root.docs, Some(s("A sample collection")));
    assert!(extra_get(&root.extra, "extensions").is_some());
    assert_eq!(
        extra_get(&root.extra, "x-broquest-vars"),
        Some(&DataValue::List(vec![map(vec![("key", s("a")), ("value", s("1")), ("enabled", DataValue::Bool(true))])]))
    );
    let fresh = build_unbundled_root(None, "New", "1.0.0", Some("docs"), &[]);
    assert_eq!(fresh.info.version.as_deref(), Some("1.0.0"));
    assert!(fresh.config.is_none());
    assert_eq!(fresh.docs, Some(s("docs")));
    let folder = build_folder_config(None, "F");
    assert_eq!(folder.info.as_ref().unwrap().item_type, "folder");
    assert!(folder.items.is_none());
}

#[test]
fn headers_and_params_are_written_with_names_only() {
    let mut described = header("Accept", "text/plain", false);
    described.description = Some(s("what comes back"));
    let source = vec![described];
    let written = merge_headers(&source, &vec![kv("", "x", true), kv("Accept", "application/json", false)]);
    assert_eq!(written.len(), 1);
    assert_eq!(written[0].name, "Accept");
    assert_eq!(written[0].value, "application/json");
    assert!(written[0].disabled);
    assert_eq!(written[0].description, Some(s("what comes back")));

    let mut path_source = param("id", "1", "path");
    path_source.description = Some(s("the id"));
    let params = merge_params(&vec![path_source], &vec![kv("id", "q", true)], &vec![kv("id", "7", true), kv("", "z", true)]);
    assert_eq!(params.len(), 2);
    assert_eq!((params[0].name.as_str(), params[0].param_type.as_str(), params[0].value.as_str()), ("id", "query", "q"));
    assert_eq!(params[0].description, None);
    assert_eq!((params[1].name.as_str(), params[1].param_type.as_str(), params[1].value.as_str()), ("id", "path", "7"));
    assert_eq!(params[1].description, Some(s("the id")));
}
