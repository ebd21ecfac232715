use beam::request_panel::{format_body_action, Action, EditorPosition, Message, RequestPanel};
use beam::types::{AuthType, BodyFormat, HttpMethod, RequestConfig, RequestTab};

fn request() -> RequestConfig {
    let mut r = RequestConfig::default();
    r.url = "https://example.test".to_string();
    r.headers = vec![("Accept".to_string(), "*/*".to_string())];
    r.params = vec![("q".to_string(), "1".to_string())];
    r
}

fn edited(action: Action) -> RequestConfig {
    match action {
        Action::UpdateCurrentRequest(r) => r,
        other => panic!("expected an edited request, got {:?}", other),
    }
}

#[test]
fn a_new_panel_shows_the_body_tab() {
    let panel = RequestPanel::new();
    assert_eq!(panel.selected_tab, RequestTab::Body);
    assert!(!panel.method_menu_open);
    assert!(!panel.show_search);
    assert_eq!(panel.search_query, "");
}

#[test]
fn choosing_a_method_edits_the_request_and_closes_the_menu() {
    let mut panel = RequestPanel::new();
    panel.method_menu_open = true;
    let r = edited(panel.update(Message::MethodChanged(HttpMethod::POST), &request(), 0));
    assert_eq!(r.method, HttpMethod::POST);
    assert_eq!(r.url, "https://example.test");
    assert!(!panel.method_menu_open);
}

#[test]
fn header_rows_are_edited_added_and_removed() {
    let mut panel = RequestPanel::new();
    let r = edited(panel.update(Message::HeaderKeyChanged(0, "X-Id".to_string()), &request(), 0));
    assert_eq!(r.headers, vec![("X-Id".to_string(), "*/*".to_string())]);
    let r = edited(panel.update(Message::HeaderValueChanged(0, "json".to_string()), &request(), 0));
    assert_eq!(r.headers, vec![("Accept".to_string(), "json".to_string())]);
    let r = edited(panel.update(Message::HeaderKeyChanged(5, "ignored".to_string()), &request(), 0));
    assert_eq!(r.headers, request().headers);
    let r = edited(panel.update(Message::AddHeader, &request(), 0));
    assert_eq!(r.headers.len(), 2);
    assert_eq!(r.headers[1], (String::new(), String::new()));
    let r = edited(panel.update(Message::RemoveHeader(0), &request(), 0));
    assert!(r.headers.is_empty());
    let r = edited(panel.update(Message::RemoveHeader(3), &request(), 0));
    assert_eq!(r.headers.len(), 1);
}

#[test]
fn param_rows_are_edited_added_and_removed() {
    let mut panel = RequestPanel::new();
    let r = edited(panel.update(Message::ParamValueChanged(0, "2".to_string()), &request(), 0));
    assert_eq!(r.params, vec![("q".to_string(), "2".to_string())]);
    let r = edited(panel.update(Message::AddParam, &request(), 0));
    assert_eq!(r.params.len(), 2);
    let r = edited(panel.update(Message::RemoveParam(0), &request(), 0));
    assert!(r.params.is_empty());
}

#[test]
fn body_format_sets_the_content_type_and_shows_the_body_tab() {
    let mut panel = RequestPanel::new();
    panel.selected_tab = RequestTab::Headers;
    panel.body_format_menu_open = true;
    let r = edited(panel.update(Message::BodyFormatChanged(BodyFormat::Json), &request(), 0));
    assert_eq!(r.body_format, BodyFormat::Json);
    assert_eq!(r.content_type, "application/json");
    assert_eq!(panel.selected_tab, RequestTab::Body);
    assert!(!panel.body_format_menu_open);
    for (format, ct) in [
        (BodyFormat::Xml, "application/xml"),
        (BodyFormat::Text, "text/plain"),
        (BodyFormat::GraphQL, "application/graphql"),
    ] {
        let r = edited(panel.update(Message::BodyFormatChanged(format), &request(), 0));
        assert_eq!(r.content_type, ct);
    }
    let mut with_ct = request();
    with_ct.content_type = "custom/type".to_string();
    let r = edited(panel.update(Message::BodyFormatChanged(BodyFormat::NoBody), &with_ct, 0));
    assert_eq!(r.content_type, "custom/type");
}

#[test]
fn auth_fields_are_edited() {
    let mut panel = RequestPanel::new();
    let r = edited(panel.update(Message::AuthTypeChanged(AuthType::Bearer), &request(), 0));
    assert_eq!(r.auth_type, AuthType::Bearer);
    let r = edited(panel.update(Message::BearerTokenChanged("t".to_string()), &request(), 0));
    assert_eq!(r.bearer_token, "t");
    let r = edited(panel.update(Message::BasicUsernameChanged("u".to_string()), &request(), 0));
    assert_eq!(r.basic_username, "u");
    let r = edited(panel.update(Message::BasicPasswordChanged("p".to_string()), &request(), 0));
    assert_eq!(r.basic_password, "p");
    let r = edited(panel.update(Message::ApiKeyChanged("k".to_string()), &request(), 0));
    assert_eq!(r.api_key, "k");
    let r = edited(panel.update(Message::ApiKeyHeaderChanged("X-Key".to_string()), &request(), 0));
    assert_eq!(r.api_key_header, "X-Key");
}

#[test]
fn formatting_pretty_prints_json_and_trims_text() {
    let mut r = request();
    r.body_format = BodyFormat::Json;
    r.body = "{\"a\":1}".to_string();
    match format_body_action(&r) {
        Action::FormatRequestBody(s) => assert_eq!(s, "{\n  \"a\": 1\n}"),
        other => panic!("unexpected {:?}", other),
    }
    r.body = "{oops".to_string();
    assert!(matches!(format_body_action(&r), Action::NoAction));
    r.body_format = BodyFormat::Xml;
    r.body = "  <a/>\n".to_string();
    match format_body_action(&r) {
        Action::FormatRequestBody(s) => assert_eq!(s, "<a/>"),
        other => panic!("unexpected {:?}", other),
    }
    r.body_format = BodyFormat::GraphQL;
    assert!(matches!(format_body_action(&r), Action::NoAction));
}

#[test]
fn environment_choice_is_checked_against_the_list() {
    let mut panel = RequestPanel::new();
    assert!(matches!(
        panel.update(Message::EnvironmentSelected(1), &request(), 2),
        Action::UpdateActiveEnvironment(1)
    ));
    assert!(matches!(panel.update(Message::EnvironmentSelected(2), &request(), 2), Action::NoAction));
}

#[test]
fn search_state_follows_the_messages() {
    let mut panel = RequestPanel::new();
    panel.show_search = true;
    panel.update(Message::SearchQueryChanged("needle".to_string()), &request(), 0);
    assert_eq!(panel.search_query, "needle");
    let start = EditorPosition { line: 7, column: 2 };
    let end = EditorPosition { line: 7, column: 8 };
    assert!(matches!(
        panel.update(Message::SearchFound(start, end), &request(), 0),
        Action::ScrollToLine(7)
    ));
    assert_eq!(panel.search_selection, Some((start, end)));
    panel.update(Message::SearchNotFound, &request(), 0);
    assert_eq!(panel.search_selection, None);
    panel.update(Message::CloseSearch, &request(), 0);
    assert!(!panel.show_search);
    assert_eq!(panel.search_query, "");
    assert!(matches!(panel.update(Message::FindNext, &request(), 0), Action::SearchNext));
    assert!(matches!(panel.update(Message::FindPrevious, &request(), 0), Action::SearchPrevious));
    assert!(matches!(panel.update(Message::SubmitSearch, &request(), 0), Action::SubmitSearch));
    assert!(matches!(panel.update(Message::FocusSearch, &request(), 0), Action::Focus));
}

#[test]
fn menus_toggle_and_close() {
    let mut panel = RequestPanel::new();
    panel.update(Message::ToggleMethodMenu, &request(), 0);
    assert!(panel.method_menu_open);
    panel.update(Message::CloseMethodMenu, &request(), 0);
    assert!(!panel.method_menu_open);
    panel.selected_tab = RequestTab::Auth;
    panel.update(Message::ToggleBodyFormatMenu, &request(), 0);
    assert!(panel.body_format_menu_open);
    assert_eq!(panel.selected_tab, RequestTab::Body);
    panel.update(Message::CloseBodyFormatMenu, &request(), 0);
    assert!(!panel.body_format_menu_open);
}

#[test]
fn send_and_cancel_are_passed_on() {
    let mut panel = RequestPanel::new();
    assert!(matches!(panel.update(Message::ClickSendRequest, &request(), 0), Action::SendRequest(_)));
    assert!(matches!(panel.update(Message::CancelRequest, &request(), 0), Action::CancelRequest));
    assert!(matches!(
        panel.update(Message::OpenEnvironmentPopup, &request(), 0),
        Action::OpenEnvironmentPopup
    ));
    panel.update(Message::SendButtonHovered(true), &request(), 0);
    assert!(panel.send_button_hovered);
}

#[test]
fn the_editor_find_shortcut_opens_the_search() {
    let mut panel = RequestPanel::new();
    let action = panel.update(Message::Find, &request(), 0);
    assert!(matches!(action, Action::FocusSearchSoon));
    assert!(panel.show_search);
    panel.update(Message::CloseSearch, &request(), 0);
    assert!(!panel.show_search);
}

#[test]
fn edited_url_and_body_texts_update_the_request() {
    let mut panel = RequestPanel::new();
    let r = edited(panel.update(Message::UrlEdited("https://other.test".to_string()), &request(), 0));
    assert_eq!(r.url, "https://other.test");
    assert_eq!(r.headers, request().headers);
    let r = edited(panel.update(Message::BodyEdited("{}".to_string()), &request(), 0));
    assert_eq!(r.body, "{}");
    assert_eq!(r.url, "https://example.test");
    assert!(matches!(
        panel.update(Message::BodyChanged("x".to_string()), &request(), 0),
        Action::EditRequestBody(ref t) if t == "x"
    ));
    assert!(matches!(
        panel.update(Message::ScriptChanged("pm.test()".to_string()), &request(), 0),
        Action::EditRequestPostRequestScript(ref t) if t == "pm.test()"
    ));
}
