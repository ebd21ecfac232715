use beam::body::{format_body_text, BodyFormatHint};
use beam::models::BodyConfig;

fn from_config(input: &str, body: &BodyConfig) -> Result<String, String> {
    format_body_text(input, BodyFormatHint::FromConfig(body))
}

fn from_content_type(input: &str, content_type: Option<&str>) -> Result<String, String> {
    format_body_text(input, BodyFormatHint::FromContentType(content_type))
}

#[test]
fn format_body_text_json() {
    let result = from_config(
        r#"{"name": "John", "age": 30}"#,
        &BodyConfig::Json {
            text: String::new(),
        },
    );
    assert_eq!(
        result.unwrap(),
        "{\n  \"name\": \"John\",\n  \"age\": 30\n}"
    );
}

#[test]
fn format_body_text_json_array() {
    let result = from_content_type(r#"[{"id": 1}, {"id": 2}]"#, Some("application/json"));
    assert!(result.unwrap().contains("\"id\": 1"));
}

#[test]
fn format_body_text_json_invalid() {
    let error = from_config(
        "not json",
        &BodyConfig::Json {
            text: String::new(),
        },
    )
    .unwrap_err();
    assert!(error.contains("Unable to format JSON body"));
}

#[test]
fn format_body_text_xml() {
    let formatted = from_config(
        "<root><name>John</name></root>",
        &BodyConfig::Xml {
            text: String::new(),
        },
    )
    .unwrap();
    assert!(formatted.starts_with("<root>"));
    assert!(formatted.contains("  <name>"));
    assert!(formatted.contains("    John"));
    assert!(formatted.contains("  </name>"));
    assert!(formatted.ends_with("</root>"));
}

#[test]
fn format_body_text_xml_non_xml_passes_through() {
    let result = from_config(
        "not xml",
        &BodyConfig::Xml {
            text: String::new(),
        },
    );
    assert_eq!(result.unwrap(), "not xml");
}

#[test]
fn format_body_text_graphql_query_only() {
    let result = from_config(
        "query { user { name } }",
        &BodyConfig::Graphql {
            query: String::new(),
            variables_json: None,
        },
    );
    assert_eq!(result.unwrap(), "query { user { name } }");
}

#[test]
fn format_body_text_graphql_with_variables() {
    let result = from_config(
        "query:\nquery { user(id: $id) { name } }\n\nvariables:\n{\"id\": 1}",
        &BodyConfig::Graphql {
            query: String::new(),
            variables_json: None,
        },
    )
    .unwrap();
    assert!(result.contains("query { user(id: $id) { name } }"));
    assert!(result.contains("\"id\": 1"));
}

#[test]
fn format_body_text_graphql_with_empty_variables() {
    let result = from_config(
        "query:\nquery { user { name } }\n\nvariables:\n",
        &BodyConfig::Graphql {
            query: String::new(),
            variables_json: None,
        },
    );
    assert_eq!(result.unwrap(), "query { user { name } }");
}

#[test]
fn format_body_text_graphql_invalid_variables_json() {
    let error = from_config(
        "query:\nquery { user { name } }\n\nvariables:\n{invalid}",
        &BodyConfig::Graphql {
            query: String::new(),
            variables_json: None,
        },
    )
    .unwrap_err();
    assert!(error.contains("Unable to format GraphQL variables JSON"));
}

#[test]
fn format_body_text_form() {
    let result = from_config(
        "key1=value1\nkey2=value2",
        &BodyConfig::FormUrlEncoded { fields: vec![] },
    );
    assert_eq!(result.unwrap(), "key1=value1\nkey2=value2");
}

#[test]
fn format_body_text_form_whitespace_trimming() {
    let result = from_config(
        "  key1 = value1  \n  key2 = value2  ",
        &BodyConfig::FormUrlEncoded { fields: vec![] },
    );
    assert_eq!(result.unwrap(), "key1=value1\nkey2=value2");
}

#[test]
fn format_body_text_form_empty_lines_skipped() {
    let result = from_config(
        "key1=value1\n\n\nkey2=value2",
        &BodyConfig::FormUrlEncoded { fields: vec![] },
    );
    assert_eq!(result.unwrap(), "key1=value1\nkey2=value2");
}

#[test]
fn format_body_text_form_no_equals_sign() {
    let result = from_config(
        "key_without_value",
        &BodyConfig::FormUrlEncoded { fields: vec![] },
    );
    assert_eq!(result.unwrap(), "key_without_value=");
}

#[test]
fn format_body_text_from_config_multipart() {
    let result = from_config(
        "key1=value1\nkey2=value2",
        &BodyConfig::Multipart { fields: vec![] },
    );
    assert_eq!(result.unwrap(), "key1=value1\nkey2=value2");
}

#[test]
fn format_body_text_from_config_unsupported_body_type() {
    let error = from_config("some text", &BodyConfig::NoBody).unwrap_err();
    assert!(
        error.contains("Formatting is only supported for JSON, XML, GraphQL, and form bodies.")
    );
}

#[test]
fn format_body_text_from_config_raw_body_type() {
    let error = from_config(
        "some text",
        &BodyConfig::Raw {
            media_type: None,
            text: String::new(),
        },
    )
    .unwrap_err();
    assert!(
        error.contains("Formatting is only supported for JSON, XML, GraphQL, and form bodies.")
    );
}

#[test]
fn format_body_text_from_content_type_empty_body() {
    let error = from_content_type("  ", Some("application/json")).unwrap_err();
    assert!(error.contains("Body is empty"));
}

#[test]
fn format_body_text_from_content_type_unrecognized() {
    let error = from_content_type("some text", Some("application/pdf")).unwrap_err();
    assert!(error.contains("Unable to format body for the detected content type"));
}

#[test]
fn format_body_text_from_content_type_auto_detect_json_brace() {
    let formatted = from_content_type(r#"{"key": "value"}"#, None).unwrap();
    assert!(formatted.contains("\"key\": \"value\""));
}

#[test]
fn format_body_text_from_content_type_auto_detect_json_bracket() {
    assert!(from_content_type("[1, 2, 3]", None).is_ok());
}

#[test]
fn format_body_text_from_content_type_graphql_content_type() {
    let result =
        from_content_type("query { user { name } }", Some("application/graphql")).unwrap();
    assert_eq!(result, "query { user { name } }");
}

#[test]
fn format_body_text_from_content_type_graphql_query_prefix() {
    let result = from_content_type("query:\nquery { user { name } }", None).unwrap();
    assert!(result.contains("query { user { name } }"));
}

#[test]
fn format_body_text_from_content_type_html() {
    let formatted =
        from_content_type("<html><body><p>Hello</p></body></html>", Some("text/html")).unwrap();
    for fragment in ["<html>", "<p>", "Hello", "</p>", "</body>", "</html>"] {
        assert!(formatted.contains(fragment));
    }
}

#[test]
fn format_body_text_json_preserves_insertion_order() {
    let result = from_config(
        r#"{"z": 1, "a": 2, "m": 3}"#,
        &BodyConfig::Json {
            text: String::new(),
        },
    );
    assert_eq!(
        result.unwrap(),
        "{\n  \"z\": 1,\n  \"a\": 2,\n  \"m\": 3\n}"
    );
}

#[test]
fn format_body_text_json_nested() {
    let result = from_config(
        r#"{"outer": {"inner": [1, 2, 3]}}"#,
        &BodyConfig::Json {
            text: String::new(),
        },
    )
    .unwrap();
    assert!(result.contains("\"outer\": {"));
    assert!(result.contains("\"inner\": ["));
}

#[test]
fn format_body_text_from_content_type_auto_xml() {
    let formatted = from_content_type("<note><to>Tove</to></note>", Some("text/xml")).unwrap();
    assert!(formatted.starts_with("<note>"));
    assert!(formatted.contains("  <to>"));
    assert!(formatted.contains("    Tove"));
    assert!(formatted.contains("  </to>"));
    assert!(formatted.ends_with("</note>"));
}

#[test]
fn json_errors_carry_the_parser_message() {
    let text = "{\"a\": }";
    let parser_error = serde_json::from_str::<serde_json::Value>(text).unwrap_err();
    assert_eq!(
        from_config(text, &BodyConfig::Json { text: String::new() }).unwrap_err(),
        format!("Unable to format JSON body: {parser_error}")
    );
}
