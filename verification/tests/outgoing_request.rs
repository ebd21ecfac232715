use beam::models::{
    ApiKeyLocation, AuthConfig, BodyConfig, HttpMethod, QueryParamField, RequestAuthoringState,
};
use beam::outgoing::{outgoing_request, OutgoingBody};

fn field(name: &str, value: &str, enabled: bool) -> QueryParamField {
    QueryParamField { name: name.into(), value: value.into(), enabled, description: None }
}

fn pairs(items: &[(&str, &str)]) -> Vec<(String, String)> {
    items.iter().map(|(n, v)| (n.to_string(), v.to_string())).collect()
}

#[test]
fn only_enabled_named_rows_are_sent_with_trimmed_names() {
    let request = RequestAuthoringState {
        method: HttpMethod::Post,
        url: "  https://api.test/items ".into(),
        query_params: vec![field(" page ", " 2", true), field("  ", "x", true), field("off", "1", false)],
        headers: vec![field(" X-Trace ", "abc ", true), field("X-Off", "1", false)],
        ..RequestAuthoringState::default()
    };
    let out = outgoing_request(&request);
    assert_eq!(out.method, HttpMethod::Post);
    assert_eq!(out.url, "https://api.test/items");
    assert_eq!(out.query, pairs(&[("page", " 2")]));
    assert_eq!(out.headers, pairs(&[("X-Trace", "abc ")]));
    assert_eq!(out.api_key_query, None);
    assert_eq!(out.bearer, None);
    assert_eq!(out.basic, None);
    assert!(matches!(out.body, OutgoingBody::NoBody));
}

#[test]
fn bearer_tokens_are_trimmed_and_blank_ones_dropped() {
    let mut request = RequestAuthoringState {
        auth: AuthConfig::Bearer { token: Some(" tok ".into()) },
        ..RequestAuthoringState::default()
    };
    assert_eq!(outgoing_request(&request).bearer.as_deref(), Some("tok"));
    request.auth = AuthConfig::Bearer { token: Some("   ".into()) };
    assert_eq!(outgoing_request(&request).bearer, None);
}

#[test]
fn basic_credentials_drop_an_empty_password() {
    let mut request = RequestAuthoringState {
        auth: AuthConfig::Basic { username: Some("ann".into()), password: Some(String::new()) },
        ..RequestAuthoringState::default()
    };
    assert_eq!(outgoing_request(&request).basic, Some(("ann".to_string(), None)));
    request.auth = AuthConfig::Basic { username: None, password: Some("pw".into()) };
    assert_eq!(
        outgoing_request(&request).basic,
        Some((String::new(), Some("pw".to_string())))
    );
}

#[test]
fn api_keys_go_to_a_header_or_the_query() {
    let mut request = RequestAuthoringState {
        headers: vec![field("Accept", "*/*", true)],
        auth: AuthConfig::ApiKey {
            key: None,
            value: Some("secret".into()),
            location: ApiKeyLocation::Header,
        },
        ..RequestAuthoringState::default()
    };
    let out = outgoing_request(&request);
    assert_eq!(out.headers, pairs(&[("Accept", "*/*"), ("X-API-Key", "secret")]));
    assert_eq!(out.api_key_query, None);

    request.auth = AuthConfig::ApiKey {
        key: Some(" api_key ".into()),
        value: Some("v".into()),
        location: ApiKeyLocation::Query,
    };
    let out = outgoing_request(&request);
    assert_eq!(out.api_key_query, Some(("api_key".to_string(), "v".to_string())));
    assert_eq!(out.headers, pairs(&[("Accept", "*/*")]));

    request.auth = AuthConfig::ApiKey {
        key: Some("k".into()),
        value: Some("  ".into()),
        location: ApiKeyLocation::Query,
    };
    assert_eq!(outgoing_request(&request).api_key_query, None);
}

#[test]
fn bodies_bring_their_content_type_and_payload() {
    let mut request = RequestAuthoringState {
        body: BodyConfig::Json { text: "{\"a\":1}".into() },
        ..RequestAuthoringState::default()
    };
    let out = outgoing_request(&request);
    assert_eq!(out.headers, pairs(&[("Content-Type", "application/json")]));
    assert!(matches!(out.body, OutgoingBody::Text(ref t) if t == "{\"a\":1}"));

    request.body = BodyConfig::Raw { media_type: Some("text/csv".into()), text: "a,b".into() };
    assert_eq!(outgoing_request(&request).headers, pairs(&[("Content-Type", "text/csv")]));
    request.body = BodyConfig::Raw { media_type: Some(" ".into()), text: "a,b".into() };
    assert!(outgoing_request(&request).headers.is_empty());

    request.body = BodyConfig::FormUrlEncoded {
        fields: vec![field(" k ", "v w", true), field("off", "1", false), field("", "z", true)],
    };
    let out = outgoing_request(&request);
    assert!(out.headers.is_empty());
    assert!(matches!(out.body, OutgoingBody::Form(ref p) if *p == pairs(&[("k", "v w")])));
}

#[test]
fn graphql_bodies_embed_the_query_as_a_json_string() {
    let mut request = RequestAuthoringState {
        body: BodyConfig::Graphql {
            query: "{ a(x: \"q\") }\n".into(),
            variables_json: Some(" {\"id\":1} ".into()),
        },
        ..RequestAuthoringState::default()
    };
    let out = outgoing_request(&request);
    assert_eq!(out.headers, pairs(&[("Content-Type", "application/json")]));
    assert!(matches!(out.body, OutgoingBody::Text(ref t)
        if t == "{\"query\":\"{ a(x: \\\"q\\\") }\\n\",\"variables\": {\"id\":1} }"));

    request.body = BodyConfig::Graphql { query: "{ me }".into(), variables_json: Some("  ".into()) };
    assert!(matches!(outgoing_request(&request).body, OutgoingBody::Text(ref t)
        if t == "{\"query\":\"{ me }\"}"));

    request.body = BodyConfig::Graphql { query: "a\u{1}\tb\\".into(), variables_json: None };
    assert!(matches!(outgoing_request(&request).body, OutgoingBody::Text(ref t)
        if t == "{\"query\":\"a\\u0001\\tb\\\\\"}"));
}
