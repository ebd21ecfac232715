use beam::response::{
    body_label_for_content_type, body_label_from_content_type, reformatted_response_body,
    response_body_for_display, status_class, ResponsePane, ResponseSnapshot, StatusClass,
};

#[test]
fn status_codes_are_classed() {
    assert_eq!(status_class(Some(200)), StatusClass::Success);
    assert_eq!(status_class(Some(299)), StatusClass::Success);
    assert_eq!(status_class(Some(301)), StatusClass::Redirection);
    assert_eq!(status_class(Some(404)), StatusClass::Error);
    assert_eq!(status_class(Some(599)), StatusClass::Error);
    assert_eq!(status_class(Some(101)), StatusClass::Informational);
    assert_eq!(status_class(Some(600)), StatusClass::Unknown);
    assert_eq!(status_class(Some(99)), StatusClass::Unknown);
    assert_eq!(status_class(None), StatusClass::Unknown);
}

#[test]
fn bodies_are_shown_formatted_only_when_asked() {
    let body = "{\"a\":1}";
    assert_eq!(response_body_for_display(body, Some("application/json"), false), body);
    assert_eq!(
        response_body_for_display(body, Some("application/json"), true),
        "{\n  \"a\": 1\n}"
    );
    // a body that cannot be formatted is shown as received
    assert_eq!(response_body_for_display("{oops", Some("application/json"), true), "{oops");
    assert_eq!(response_body_for_display("plain", Some("text/plain"), true), "plain");
}

#[test]
fn reformatting_reports_only_changes() {
    assert_eq!(reformatted_response_body("   ", Some("application/json")), None);
    assert_eq!(
        reformatted_response_body("{\"a\":1}", Some("application/json")),
        Some("{\n  \"a\": 1\n}".to_string())
    );
    assert_eq!(reformatted_response_body("{\n  \"a\": 1\n}", Some("application/json")), None);
    assert_eq!(reformatted_response_body("text", Some("text/plain")), None);
}

#[test]
fn content_types_name_body_formats() {
    assert_eq!(body_label_from_content_type("Application/JSON"), Some("JSON"));
    assert_eq!(body_label_from_content_type("application/xml"), Some("XML"));
    assert_eq!(body_label_from_content_type("text/html; charset=utf-8"), Some("XML"));
    assert_eq!(body_label_from_content_type("application/graphql"), Some("GraphQL"));
    assert_eq!(body_label_from_content_type("text/csv"), Some("Text"));
    assert_eq!(body_label_from_content_type("application/x-plain"), Some("Text"));
    assert_eq!(body_label_from_content_type("image/png"), None);
    assert_eq!(body_label_for_content_type("application/ld+json"), Some("JSON"));
}

fn json_snapshot() -> ResponseSnapshot {
    ResponseSnapshot {
        status: "200 OK".to_string(),
        status_code: Some(200),
        time: "12 ms".to_string(),
        size: "7 B".to_string(),
        headers_raw: "content-type: application/json".to_string(),
        content_type: Some("application/json".to_string()),
        body: "{\"a\":1}".to_string(),
    }
}

#[test]
fn a_new_pane_shows_dashes() {
    let pane = ResponsePane::new();
    assert_eq!(pane.status, "\u{2014}");
    assert_eq!(pane.time, "\u{2014}");
    assert_eq!(pane.size, "\u{2014}");
    assert_eq!(pane.status_code, None);
    assert_eq!(pane.body, "");
    assert_eq!(pane.language, "text");
}

#[test]
fn a_snapshot_is_shown_formatted_with_its_language() {
    let mut pane = ResponsePane::new();
    pane.show_snapshot(&json_snapshot(), true);
    assert_eq!(pane.status, "200 OK");
    assert_eq!(pane.status_code, Some(200));
    assert_eq!(pane.time, "12 ms");
    assert_eq!(pane.size, "7 B");
    assert_eq!(pane.headers_raw, "content-type: application/json");
    assert_eq!(pane.content_type.as_deref(), Some("application/json"));
    assert_eq!(pane.body, "{\n  \"a\": 1\n}");
    assert_eq!(pane.language, "json");

    let mut raw = ResponsePane::new();
    raw.show_snapshot(&json_snapshot(), false);
    assert_eq!(raw.body, "{\"a\":1}");
}

#[test]
fn clearing_keeps_the_language_and_canceling_keeps_the_body() {
    let mut pane = ResponsePane::new();
    pane.show_snapshot(&json_snapshot(), false);
    pane.show_canceled();
    assert_eq!(pane.status, "Canceled");
    assert_eq!(pane.status_code, None);
    assert_eq!(pane.time, "\u{2014}");
    assert_eq!(pane.body, "{\"a\":1}");
    pane.clear();
    assert_eq!(pane.status, "\u{2014}");
    assert_eq!(pane.body, "");
    assert_eq!(pane.headers_raw, "");
    assert_eq!(pane.content_type, None);
    assert_eq!(pane.language, "json");
}

#[test]
fn status_lines_and_header_texts() {
    assert_eq!(beam::response::status_text(404, Some("Not Found")), "404 Not Found");
    assert_eq!(beam::response::status_text(599, None), "599");
    let headers = vec![
        ("content-type".to_string(), "text/plain".to_string()),
        ("x-id".to_string(), "7".to_string()),
    ];
    assert_eq!(
        beam::response::raw_headers_text(&headers),
        "content-type: text/plain\nx-id: 7"
    );
    assert_eq!(beam::response::raw_headers_text(&[]), "");
}
