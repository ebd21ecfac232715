use beam::curl::{build_curl_for_request, quote_shell_arg};
use beam::models::{
    method_label, supported_http_methods, BodyConfig, HttpMethod, QueryParamField,
    RequestAuthoringState,
};

fn field(name: &str, value: &str, enabled: bool) -> QueryParamField {
    QueryParamField { name: name.into(), value: value.into(), enabled, description: None }
}

#[test]
fn quotes_single_quotes_for_the_shell() {
    assert_eq!(quote_shell_arg("it's"), "'it'\\''s'");
    assert_eq!(quote_shell_arg(""), "''");
}

#[test]
fn builds_a_complete_command() {
    let request = RequestAuthoringState {
        method: HttpMethod::Post,
        url: "https://api.example.com/users".into(),
        headers: vec![field(" Content-Type ", "application/json", true), field("X-Off", "1", false)],
        query_params: vec![field("page", " 2 ", true), field(" ", "x", true), field("off", "1", false)],
        body: BodyConfig::Json { text: "{\"a\":1}".into() },
        ..RequestAuthoringState::default()
    };
    assert_eq!(
        build_curl_for_request(&request).unwrap(),
        "curl -X POST 'https://api.example.com/users?page=2' -H 'Content-Type: application/json' --data-raw '{\"a\":1}'"
    );
}

#[test]
fn appends_to_an_existing_query_and_joins_form_fields() {
    let request = RequestAuthoringState {
        url: "https://x.test/?a=1".into(),
        query_params: vec![field("b", "2", true)],
        body: BodyConfig::FormUrlEncoded { fields: vec![field("k", "v w", false), field("", "z", true)] },
        ..RequestAuthoringState::default()
    };
    assert_eq!(
        build_curl_for_request(&request).unwrap(),
        "curl -X GET 'https://x.test/?a=1&b=2' --data-raw 'k=v w'"
    );
}

#[test]
fn graphql_payload_embeds_json_variables() {
    let mut request = RequestAuthoringState {
        method: HttpMethod::Query,
        url: "https://g.test".into(),
        body: BodyConfig::Graphql { query: "{ me }".into(), variables_json: Some("{\"id\": 1}".into()) },
        ..RequestAuthoringState::default()
    };
    assert_eq!(
        build_curl_for_request(&request).unwrap(),
        "curl -X QUERY 'https://g.test' --data-raw '{\"query\":\"{ me }\",\"variables\":{\"id\": 1}}'"
    );
    request.body = BodyConfig::Graphql { query: "q".into(), variables_json: Some("x".into()) };
    assert_eq!(
        build_curl_for_request(&request).unwrap(),
        "curl -X QUERY 'https://g.test' --data-raw '{\"query\":\"q\",\"variables\":\"x\"}'"
    );
    request.body = BodyConfig::Raw { media_type: None, text: String::new() };
    assert_eq!(build_curl_for_request(&request).unwrap(), "curl -X QUERY 'https://g.test'");
}

#[test]
fn method_labels() {
    let labels: Vec<&str> = supported_http_methods().iter().map(|m| method_label(*m)).collect();
    assert_eq!(labels, vec!["GET", "POST", "PUT", "DELETE", "PATCH", "HEAD", "OPTIONS", "QUERY"]);
}
