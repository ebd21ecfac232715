use beam::body::{
    body_editor_language, body_editor_text, body_format_from_config, body_format_label,
    body_from_format, body_tab_label, body_with_updated_text, parse_form_body_fields,
    parse_graphql_editor_text, supported_body_formats, RequestBodyFormat,
};
use beam::models::{BodyConfig, QueryParamField};

fn field(name: &str, value: &str) -> QueryParamField {
    QueryParamField {
        name: name.to_string(),
        value: value.to_string(),
        enabled: true,
        description: None,
    }
}

#[test]
fn body_formats_are_offered_in_menu_order_with_labels() {
    let formats = supported_body_formats();
    let labels: Vec<&str> = formats.iter().map(|f| body_format_label(*f)).collect();
    assert_eq!(
        labels,
        vec!["None", "JSON", "XML", "GraphQL", "Text", "Form URL", "Multipart"]
    );
    assert_eq!(body_tab_label(RequestBodyFormat::NoBody), "Body");
    assert_eq!(body_tab_label(RequestBodyFormat::Json), "JSON");
}

#[test]
fn the_editor_shows_the_text_of_each_body_kind() {
    assert_eq!(body_editor_text(&BodyConfig::NoBody), "");
    assert_eq!(
        body_editor_text(&BodyConfig::Json { text: "{}".to_string() }),
        "{}"
    );
    assert_eq!(
        body_editor_text(&BodyConfig::FormUrlEncoded {
            fields: vec![field("a", "1"), field("b", "2")]
        }),
        "a=1\nb=2"
    );
    assert_eq!(
        body_editor_text(&BodyConfig::Graphql {
            query: "{ me }".to_string(),
            variables_json: Some("{\"id\":1}".to_string())
        }),
        "query:\n{ me }\n\nvariables:\n{\"id\":1}"
    );
    assert_eq!(
        body_editor_text(&BodyConfig::Graphql {
            query: "{ me }".to_string(),
            variables_json: Some(String::new())
        }),
        "{ me }"
    );
}

#[test]
fn body_kinds_and_languages_follow_the_configuration() {
    let raw = BodyConfig::Raw { media_type: None, text: "x".to_string() };
    assert_eq!(body_format_from_config(&raw), RequestBodyFormat::Text);
    assert_eq!(body_format_from_config(&BodyConfig::NoBody), RequestBodyFormat::NoBody);
    assert_eq!(body_editor_language(&raw), "text");
    assert_eq!(body_editor_language(&BodyConfig::Json { text: String::new() }), "json");
    assert_eq!(body_editor_language(&BodyConfig::Xml { text: String::new() }), "html");
    assert_eq!(
        body_editor_language(&BodyConfig::Graphql { query: String::new(), variables_json: None }),
        "graphql"
    );
}

#[test]
fn switching_the_body_format_keeps_the_text() {
    assert_eq!(
        body_from_format(RequestBodyFormat::Text, "hi".to_string()),
        BodyConfig::Raw { media_type: Some("text/plain".to_string()), text: "hi".to_string() }
    );
    assert_eq!(
        body_from_format(RequestBodyFormat::FormUrlEncoded, "a = 1\nb=2".to_string()),
        BodyConfig::FormUrlEncoded { fields: vec![field("a", " 1"), field("b", "2")] }
    );
    assert_eq!(
        body_from_format(RequestBodyFormat::Graphql, "query:\n{ me }\n\nvariables:\n{}".to_string()),
        BodyConfig::Graphql { query: "{ me }".to_string(), variables_json: Some("{}".to_string()) }
    );
    assert_eq!(body_from_format(RequestBodyFormat::NoBody, "x".to_string()), BodyConfig::NoBody);
    assert_eq!(
        body_with_updated_text(&BodyConfig::NoBody, "t".to_string()),
        BodyConfig::Raw { media_type: None, text: "t".to_string() }
    );
}

#[test]
fn editor_texts_parse_back() {
    assert_eq!(
        parse_graphql_editor_text("query:\n{ a }\n\nvariables:\n {\"x\":1} "),
        ("{ a }".to_string(), Some("{\"x\":1}".to_string()))
    );
    assert_eq!(parse_graphql_editor_text("{ a }"), ("{ a }".to_string(), None));
    assert_eq!(parse_form_body_fields("k=v\n\n x \n"), vec![field("k", "v"), field("x", "")]);
}
