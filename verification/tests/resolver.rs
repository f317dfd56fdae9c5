use broquest::collection_types::{EnvironmentToml, EnvironmentVariable};
use broquest::domain::{AuthType, BasicAuth, KeyValuePair, RequestData};
use broquest::resolver::EnvironmentResolver;
use broquest::vars::VarMap;

fn map(pairs: &[(&str, &str)]) -> VarMap {
    let mut m = VarMap::new();
    for (k, v) in pairs {
        m.insert(k.to_string(), v.to_string());
    }
    m
}

#[test]
fn test_resolve_string_precedence() {
    let resolver = EnvironmentResolver::new();
    let runtime = map(&[("x", "runtime-x"), ("only_runtime", "rt")]);
    let collection = map(&[("x", "collection-x"), ("only_collection", "col")]);
    let env = map(&[("x", "env-x"), ("only_env", "env")]);
    let secrets = map(&[("secret", "shh")]);

    let s = resolver.resolve_string("{{x}}", &runtime, &collection, &env, &secrets);
    assert_eq!(s, "runtime-x");

    let s = resolver.resolve_string("{{only_collection}}", &runtime, &collection, &env, &secrets);
    assert_eq!(s, "col");

    let s = resolver.resolve_string("{{only_env}}", &runtime, &collection, &env, &secrets);
    assert_eq!(s, "env");

    let s = resolver.resolve_string("{{secret}}", &runtime, &collection, &env, &secrets);
    assert_eq!(s, "shh");
}

#[test]
fn test_resolve_string_preserves_unknown_and_dynamic() {
    let resolver = EnvironmentResolver::new();
    let empty = VarMap::new();

    let s = resolver.resolve_string("a-{{missing}}-b", &empty, &empty, &empty, &empty);
    assert_eq!(s, "a-{{missing}}-b");

    let env = map(&[("guid", "should-not-win")]);
    let s = resolver.resolve_string("{{$guid}}", &empty, &empty, &env, &empty);
    assert_eq!(s, "{{$guid}}");
}

#[test]
fn test_resolve_string_multiple_placeholders() {
    let resolver = EnvironmentResolver::new();
    let runtime = map(&[("a", "1")]);
    let collection = map(&[("b", "2")]);
    let env = map(&[("c", "3")]);
    let empty = VarMap::new();

    let s = resolver.resolve_string(
        "{{a}}/{{b}}/{{c}}/{{a}}{{b}}",
        &runtime,
        &collection,
        &env,
        &empty,
    );
    assert_eq!(s, "1/2/3/12");
}

#[test]
fn resolve_trims_names_and_does_not_rescan_values() {
    let resolver = EnvironmentResolver::new();
    let env = map(&[("a", "{{b}}"), ("b", "no")]);
    let empty = VarMap::new();
    let s = resolver.resolve_string("x{{ a }}y", &empty, &empty, &env, &empty);
    assert_eq!(s, "x{{b}}y");
}

#[test]
fn resolve_unterminated_placeholder_is_kept() {
    let resolver = EnvironmentResolver::new();
    let env = map(&[("a", "1")]);
    let empty = VarMap::new();
    assert_eq!(resolver.resolve_string("{{a", &empty, &empty, &env, &empty), "{{a");
    assert_eq!(resolver.resolve_string("{{{a}}", &empty, &empty, &env, &empty), "{{{a}}");
    assert_eq!(resolver.resolve_string("é{{a}}", &empty, &empty, &env, &empty), "é1");
}

#[test]
fn resolve_request_data_skips_disabled_pairs() {
    let resolver = EnvironmentResolver::new();
    let env = map(&[("host", "h.test"), ("tok", "T")]);
    let empty = VarMap::new();
    let req = RequestData {
        url: "https://{{host}}/x".to_string(),
        headers: vec![
            KeyValuePair { key: "A".to_string(), value: "{{tok}}".to_string(), enabled: true },
            KeyValuePair { key: "B".to_string(), value: "{{tok}}".to_string(), enabled: false },
        ],
        body: "{{tok}}".to_string(),
        auth: AuthType::Basic(BasicAuth { username: "{{tok}}".to_string(), password: "p".to_string() }),
        ..Default::default()
    };
    let r = resolver.resolve_request_data(req, &empty, &empty, &env, &empty);
    assert_eq!(r.url, "https://h.test/x");
    assert_eq!(r.headers[0].value, "T");
    assert_eq!(r.headers[1].value, "{{tok}}");
    assert_eq!(r.body, "T");
    assert_eq!(r.auth, AuthType::Basic(BasicAuth { username: "T".to_string(), password: "p".to_string() }));
}

#[test]
fn var_map_insert_replaces() {
    let mut m = VarMap::new();
    m.insert("k".to_string(), "1".to_string());
    m.insert("k".to_string(), "2".to_string());
    assert_eq!(m.len(), 1);
    assert_eq!(m.get("k").map(|s| s.as_str()), Some("2"));
    assert!(m.get("z").is_none());
}

#[test]
fn environment_data_splits_plain_and_secret_variables() {
    let var = |value: &str, secret: bool, temporary: bool| EnvironmentVariable { value: value.to_string(), secret, temporary };
    let envs = vec![
        EnvironmentToml { name: "Dev".to_string(), variables: vec![("host".to_string(), var("dev.local", false, false))] },
        EnvironmentToml {
            name: "Prod".to_string(),
            variables: vec![
                ("host".to_string(), var("prod.example.com", false, false)),
                ("token".to_string(), var("", true, false)),
                ("scratch".to_string(), var("x", false, true)),
                ("old_secret".to_string(), var("", true, true)),
            ],
        },
    ];
    let resolver = EnvironmentResolver::new();
    let (vars, secrets) = resolver.load_environment_data(&envs, "Prod");
    assert_eq!(vars.get("host").map(|s| s.as_str()), Some("prod.example.com"));
    assert_eq!(vars.get("scratch"), None);
    assert_eq!(vars.len(), 1);
    assert_eq!(secrets, vec!["token".to_string()]);
    let (none, no_secrets) = resolver.load_environment_data(&envs, "Staging");
    assert_eq!(none.len(), 0);
    assert!(no_secrets.is_empty());
}
