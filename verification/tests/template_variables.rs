use beam::models::{
    AuthConfig, BodyConfig, EnvironmentVariable, HttpMethod, QueryParamField, RequestAuthoringState,
};
use beam::template::{
    build_enabled_environment_lookup, find_env_var_ranges, resolve_request_with_environment,
    resolve_template_variables,
};

fn var(name: &str, value: &str, enabled: bool) -> EnvironmentVariable {
    EnvironmentVariable { name: name.into(), value: value.into(), enabled, description: None }
}

fn field(name: &str, value: &str) -> QueryParamField {
    QueryParamField { name: name.into(), value: value.into(), enabled: true, description: None }
}

#[test]
fn resolves_known_tokens_and_keeps_unknown_ones() {
    let env = build_enabled_environment_lookup(&[
        var(" host ", "example.com", true),
        var("token", "secret", false),
        var("", "blank", true),
    ]);
    assert_eq!(
        resolve_template_variables("https://{{ host }}/{{token}}/{{missing}}", &env),
        "https://example.com/{{token}}/{{missing}}"
    );
    assert_eq!(resolve_template_variables("{{host}} {{open", &env), "example.com {{open");
    assert_eq!(resolve_template_variables("no tokens", &env), "no tokens");
}

#[test]
fn later_variables_of_the_same_name_win() {
    let env = build_enabled_environment_lookup(&[var("a", "1", true), var("a", "2", true)]);
    assert_eq!(resolve_template_variables("{{a}}", &env), "2");
    assert_eq!(env.get(&"a".chars().collect()).map(String::as_str), Some("2"));
}

#[test]
fn resolves_every_part_of_a_request() {
    let request = RequestAuthoringState {
        method: HttpMethod::Post,
        url: "{{base}}/users".into(),
        headers: vec![field("X-{{h}}", "{{v}}")],
        query_params: vec![field("q", "{{v}}")],
        auth: AuthConfig::Bearer { token: Some("{{v}}".into()) },
        body: BodyConfig::Json { text: "{\"a\": \"{{v}}\"}".into() },
        post_script: Some("pm.test()".into()),
    };
    let resolved = resolve_request_with_environment(
        request,
        &[var("base", "https://api", true), var("h", "Id", true), var("v", "42", true)],
    );
    assert_eq!(resolved.url, "https://api/users");
    assert_eq!(resolved.headers[0].name, "X-Id");
    assert_eq!(resolved.headers[0].value, "42");
    assert_eq!(resolved.query_params[0].value, "42");
    assert_eq!(resolved.auth, AuthConfig::Bearer { token: Some("42".into()) });
    assert_eq!(resolved.body, BodyConfig::Json { text: "{\"a\": \"42\"}".into() });
    assert_eq!(resolved.method, HttpMethod::Post);
    assert_eq!(resolved.post_script.as_deref(), Some("pm.test()"));
}

#[test]
fn token_ranges_are_in_bytes() {
    let ranges = find_env_var_ranges("中{{ host }} {{}} {{x}}");
    assert_eq!(
        ranges,
        vec![(3, 13, "host".to_string()), (19, 24, "x".to_string())]
    );
    assert!(find_env_var_ranges("{{open").is_empty());
}
