//! The request panel of the panel front end: what each user message does
//! to the panel and to the request being edited, and which action it asks
//! of the application.
use vstd::prelude::*;
use std::time::Instant;
use crate::clock::instant_now;
use crate::json::{json_accepts, json_pretty, parse_json_value, pretty_json};
use crate::text::{string_of, trim, trimmed_str};
use crate::types::{
    AuthType, BodyFormat, HttpMethod, RequestConfig, RequestConfigView, RequestTab, rows_view,
};

verus! {

/// A place in the body editor: a line and a column in it.
#[derive(Debug, Clone, Copy, PartialEq, Eq, Structural)]
pub struct EditorPosition {
    pub line: usize,
    pub column: usize,
}

/// The state of the panel itself.
#[derive(Debug, Clone)]
pub struct RequestPanel {
    pub method_menu_open: bool,
    pub body_format_menu_open: bool,
    pub send_button_hovered: bool,
    pub cancel_button_hovered: bool,
    pub selected_tab: RequestTab,
    pub show_search: bool,
    pub search_query: String,
    pub search_selection: Option<(EditorPosition, EditorPosition)>,
}

/// What the user did in the panel.
#[derive(Debug, Clone)]
pub enum Message {
    ClickSendRequest,
    CancelRequest,
    /// The URL field's text became this.
    UrlEdited(String),
    /// The body editor's text became this.
    BodyEdited(String),
    /// The body editor asked for its search (its find shortcut).
    Find,
    /// The body editor's text is being edited to this.
    BodyChanged(String),
    /// The post-request script's text is being edited to this.
    ScriptChanged(String),
    MethodChanged(HttpMethod),
    SendButtonHovered(bool),
    CancelButtonHovered(bool),
    TabSelected(RequestTab),
    HeaderKeyChanged(usize, String),
    HeaderValueChanged(usize, String),
    AddHeader,
    RemoveHeader(usize),
    ParamKeyChanged(usize, String),
    ParamValueChanged(usize, String),
    AddParam,
    RemoveParam(usize),
    BodyFormatChanged(BodyFormat),
    AuthTypeChanged(AuthType),
    BearerTokenChanged(String),
    BasicUsernameChanged(String),
    BasicPasswordChanged(String),
    ApiKeyChanged(String),
    ApiKeyHeaderChanged(String),
    OpenEnvironmentPopup,
    ToggleMethodMenu,
    CloseMethodMenu,
    ToggleBodyFormatMenu,
    CloseBodyFormatMenu,
    FormatRequestBody,
    DoNothing,
    EnvironmentSelected(usize),
    SearchQueryChanged(String),
    FindNext,
    FindPrevious,
    SubmitSearch,
    CloseSearch,
    SearchFound(EditorPosition, EditorPosition),
    SearchNotFound,
    FocusSearch,
}

/// What the application is asked to do.
#[derive(Debug, Clone)]
pub enum Action {
    UpdateCurrentRequest(RequestConfig),
    SendRequest(Instant),
    CancelRequest,
    UpdateActiveEnvironment(usize),
    Focus,
    SearchNext,
    SearchPrevious,
    SubmitSearch,
    ScrollToLine(usize),
    FormatRequestBody(String),
    OpenEnvironmentPopup,
    /// Apply this edit to the request body editor.
    EditRequestBody(String),
    /// Apply this edit to the post-request script editor.
    EditRequestPostRequestScript(String),
    /// Move the focus to the search field after a short pause, once it is
    /// shown.
    FocusSearchSoon,
    NoAction,
}

/// The content type a body format sets; no body keeps the current one.
pub open spec fn content_type_for(format: BodyFormat, current: Seq<char>) -> Seq<char> {
    match format {
        BodyFormat::Json => "application/json"@,
        BodyFormat::Xml => "application/xml"@,
        BodyFormat::Text => "text/plain"@,
        BodyFormat::GraphQL => "application/graphql"@,
        BodyFormat::NoBody => current,
    }
}

/// Rows with the name of row `i` set to `key` (no change past the end).
pub open spec fn with_row_key(rows: Seq<(Seq<char>, Seq<char>)>, i: int, key: Seq<char>) -> Seq<
    (Seq<char>, Seq<char>),
> {
    if 0 <= i < rows.len() {
        rows.update(i, (key, rows[i].1))
    } else {
        rows
    }
}

/// Rows with the value of row `i` set to `value` (no change past the end).
pub open spec fn with_row_value(rows: Seq<(Seq<char>, Seq<char>)>, i: int, value: Seq<char>) -> Seq<
    (Seq<char>, Seq<char>),
> {
    if 0 <= i < rows.len() {
        rows.update(i, (rows[i].0, value))
    } else {
        rows
    }
}

/// Rows without row `i` (no change past the end).
pub open spec fn without_row(rows: Seq<(Seq<char>, Seq<char>)>, i: int) -> Seq<(Seq<char>, Seq<char>)> {
    if 0 <= i < rows.len() {
        rows.remove(i)
    } else {
        rows
    }
}

/// Rows with an empty row added at the end.
pub open spec fn with_blank_row(rows: Seq<(Seq<char>, Seq<char>)>) -> Seq<(Seq<char>, Seq<char>)> {
    rows.push((Seq::empty(), Seq::empty()))
}

/// The request after a message that edits it; `None` for the messages
/// that do not.
pub open spec fn edited_request(c: RequestConfigView, m: Message) -> Option<RequestConfigView> {
    match m {
        Message::UrlEdited(u) => Some(RequestConfigView { url: u@, ..c }),
        Message::BodyEdited(b) => Some(RequestConfigView { body: b@, ..c }),
        Message::MethodChanged(x) => Some(RequestConfigView { method: x, ..c }),
        Message::HeaderKeyChanged(i, k) => Some(
            RequestConfigView { headers: with_row_key(c.headers, i as int, k@), ..c },
        ),
        Message::HeaderValueChanged(i, v) => Some(
            RequestConfigView { headers: with_row_value(c.headers, i as int, v@), ..c },
        ),
        Message::AddHeader => Some(RequestConfigView { headers: with_blank_row(c.headers), ..c }),
        Message::RemoveHeader(i) => Some(
            RequestConfigView { headers: without_row(c.headers, i as int), ..c },
        ),
        Message::ParamKeyChanged(i, k) => Some(
            RequestConfigView { params: with_row_key(c.params, i as int, k@), ..c },
        ),
        Message::ParamValueChanged(i, v) => Some(
            RequestConfigView { params: with_row_value(c.params, i as int, v@), ..c },
        ),
        Message::AddParam => Some(RequestConfigView { params: with_blank_row(c.params), ..c }),
        Message::RemoveParam(i) => Some(
            RequestConfigView { params: without_row(c.params, i as int), ..c },
        ),
        Message::BodyFormatChanged(f) => Some(
            RequestConfigView {
                body_format: f,
                content_type: content_type_for(f, c.content_type),
                ..c
            },
        ),
        Message::AuthTypeChanged(a) => Some(RequestConfigView { auth_type: a, ..c }),
        Message::BearerTokenChanged(t) => Some(RequestConfigView { bearer_token: t@, ..c }),
        Message::BasicUsernameChanged(t) => Some(RequestConfigView { basic_username: t@, ..c }),
        Message::BasicPasswordChanged(t) => Some(RequestConfigView { basic_password: t@, ..c }),
        Message::ApiKeyChanged(t) => Some(RequestConfigView { api_key: t@, ..c }),
        Message::ApiKeyHeaderChanged(t) => Some(RequestConfigView { api_key_header: t@, ..c }),
        _ => None,
    }
}

/// The panel after a message, but for the search text that closing the
/// search empties.
pub open spec fn panel_after(p: RequestPanel, m: Message) -> RequestPanel {
    match m {
        Message::MethodChanged(_) => RequestPanel { method_menu_open: false, ..p },
        Message::SendButtonHovered(h) => RequestPanel { send_button_hovered: h, ..p },
        Message::CancelButtonHovered(h) => RequestPanel { cancel_button_hovered: h, ..p },
        Message::TabSelected(t) => RequestPanel { selected_tab: t, ..p },
        Message::BodyFormatChanged(_) => RequestPanel {
            body_format_menu_open: false,
            selected_tab: RequestTab::Body,
            ..p
        },
        Message::SearchQueryChanged(q) => RequestPanel { search_query: q, ..p },
        Message::SearchFound(s, e) => RequestPanel { search_selection: Some((s, e)), ..p },
        Message::SearchNotFound => RequestPanel { search_selection: None, ..p },
        Message::CloseSearch => RequestPanel { show_search: false, search_selection: None, ..p },
        Message::Find => RequestPanel { show_search: true, ..p },
        Message::ToggleMethodMenu => RequestPanel { method_menu_open: !p.method_menu_open, ..p },
        Message::CloseMethodMenu => RequestPanel { method_menu_open: false, ..p },
        Message::ToggleBodyFormatMenu => RequestPanel {
            body_format_menu_open: !p.body_format_menu_open,
            selected_tab: RequestTab::Body,
            ..p
        },
        Message::CloseBodyFormatMenu => RequestPanel { body_format_menu_open: false, ..p },
        _ => p,
    }
}

/// The action a message asks for, for the messages that neither edit the
/// request nor format its body.
pub open spec fn plain_action(m: Message, environment_count: usize) -> Option<Action> {
    match m {
        Message::CancelRequest => Some(Action::CancelRequest),
        Message::OpenEnvironmentPopup => Some(Action::OpenEnvironmentPopup),
        Message::EnvironmentSelected(i) => Some(
            if i < environment_count {
                Action::UpdateActiveEnvironment(i)
            } else {
                Action::NoAction
            },
        ),
        Message::FindNext => Some(Action::SearchNext),
        Message::FindPrevious => Some(Action::SearchPrevious),
        Message::SubmitSearch => Some(Action::SubmitSearch),
        Message::FocusSearch => Some(Action::Focus),
        Message::Find => Some(Action::FocusSearchSoon),
        Message::BodyChanged(t) => Some(Action::EditRequestBody(t)),
        Message::ScriptChanged(t) => Some(Action::EditRequestPostRequestScript(t)),
        Message::SearchFound(s, _) => Some(Action::ScrollToLine(s.line)),
        Message::SendButtonHovered(_) => Some(Action::NoAction),
        Message::CancelButtonHovered(_) => Some(Action::NoAction),
        Message::TabSelected(_) => Some(Action::NoAction),
        Message::SearchQueryChanged(_) => Some(Action::NoAction),
        Message::SearchNotFound => Some(Action::NoAction),
        Message::CloseSearch => Some(Action::NoAction),
        Message::ToggleMethodMenu => Some(Action::NoAction),
        Message::CloseMethodMenu => Some(Action::NoAction),
        Message::ToggleBodyFormatMenu => Some(Action::NoAction),
        Message::CloseBodyFormatMenu => Some(Action::NoAction),
        Message::DoNothing => Some(Action::NoAction),
        _ => None,
    }
}

/// What formatting the body of `c` gives: JSON is pretty-printed when it
/// parses, XML and plain text are trimmed, GraphQL and no body are left as
/// they are.
pub open spec fn body_format_outcome(c: RequestConfigView, r: Action) -> bool {
    match c.body_format {
        BodyFormat::Json => if json_accepts(c.body) {
            r matches Action::FormatRequestBody(s) && s@ == json_pretty(c.body)
        } else {
            r is NoAction
        },
        BodyFormat::Xml | BodyFormat::Text => r matches Action::FormatRequestBody(s) && s@ == trim(
            c.body,
        ),
        _ => r is NoAction,
    }
}

impl RequestPanel {
    /// A panel on the body tab, with its menus closed, nothing hovered and
    /// no search.
    pub fn new() -> (r: Self)
        ensures
            !r.method_menu_open,
            !r.body_format_menu_open,
            !r.send_button_hovered,
            !r.cancel_button_hovered,
            r.selected_tab == RequestTab::Body,
            !r.show_search,
            r.search_query@ == Seq::<char>::empty(),
            r.search_selection is None,
    {
        RequestPanel {
            method_menu_open: false,
            body_format_menu_open: false,
            send_button_hovered: false,
            cancel_button_hovered: false,
            selected_tab: RequestTab::Body,
            show_search: false,
            search_query: String::new(),
            search_selection: None,
        }
    }

    /// Applies a message: the panel changes as `panel_after` says (closing
    /// the search also empties its text), and the action is an edited copy
    /// of the request (`edited_request`), the formatted body
    /// (`body_format_outcome`), a send stamped with the time, or as
    /// `plain_action` says.
    pub fn update(&mut self, message: Message, current_request: &RequestConfig, environment_count: usize) -> (r:
        Action)
        ensures
            !(message is CloseSearch) ==> *final(self) == panel_after(*old(self), message),
            message is CloseSearch ==> *final(self) == (RequestPanel {
                search_query: final(self).search_query,
                ..panel_after(*old(self), message)
            }) && final(self).search_query@ == Seq::<char>::empty(),
            edited_request(current_request@, message) matches Some(v) ==> (r matches Action::UpdateCurrentRequest(c) && c@ == v),
            plain_action(message, environment_count) matches Some(a) ==> r == a,
            message is ClickSendRequest ==> r is SendRequest,
            message is FormatRequestBody ==> body_format_outcome(current_request@, r),
    {
        self.apply_to_panel(&message);
        match edit_request(&message, current_request) {
            Some(request) => Action::UpdateCurrentRequest(request),
            None => match message {
                Message::ClickSendRequest => Action::SendRequest(instant_now()),
                Message::FormatRequestBody => format_body_action(current_request),
                _ => plain_action_for(&message, environment_count),
            },
        }
    }

    /// What a message does to the panel itself (see `update`).
    fn apply_to_panel(&mut self, message: &Message)
        ensures
            !(*message is CloseSearch) ==> *final(self) == panel_after(*old(self), *message),
            *message is CloseSearch ==> *final(self) == (RequestPanel {
                search_query: final(self).search_query,
                ..panel_after(*old(self), *message)
            }) && final(self).search_query@ == Seq::<char>::empty(),
    {
        match message {
            Message::MethodChanged(_) => {
                self.method_menu_open = false;
            },
            Message::SendButtonHovered(hovered) => {
                self.send_button_hovered = *hovered;
            },
            Message::CancelButtonHovered(hovered) => {
                self.cancel_button_hovered = *hovered;
            },
            Message::TabSelected(tab) => {
                self.selected_tab = *tab;
            },
            Message::BodyFormatChanged(_) => {
                self.body_format_menu_open = false;
                self.selected_tab = RequestTab::Body;
            },
            Message::SearchQueryChanged(query) => {
                self.search_query = query.clone();
            },
            Message::SearchFound(start, end) => {
                self.search_selection = Some((*start, *end));
            },
            Message::SearchNotFound => {
                self.search_selection = None;
            },
            Message::Find => {
                self.show_search = true;
            },
            Message::CloseSearch => {
                self.show_search = false;
                self.search_query = String::new();
                self.search_selection = None;
            },
            Message::ToggleMethodMenu => {
                self.method_menu_open = !self.method_menu_open;
            },
            Message::CloseMethodMenu => {
                self.method_menu_open = false;
            },
            Message::ToggleBodyFormatMenu => {
                self.body_format_menu_open = !self.body_format_menu_open;
                self.selected_tab = RequestTab::Body;
            },
            Message::CloseBodyFormatMenu => {
                self.body_format_menu_open = false;
            },
            _ => {},
        }
    }
}

/// The action of a message that neither edits the request, sends it, nor
/// formats its body (see `plain_action`).
fn plain_action_for(message: &Message, environment_count: usize) -> (r: Action)
    ensures
        plain_action(*message, environment_count) matches Some(a) ==> r == a,
{
    match message {
        Message::CancelRequest => Action::CancelRequest,
        Message::OpenEnvironmentPopup => Action::OpenEnvironmentPopup,
        Message::EnvironmentSelected(index) => {
            if *index < environment_count {
                Action::UpdateActiveEnvironment(*index)
            } else {
                Action::NoAction
            }
        },
        Message::FindNext => Action::SearchNext,
        Message::FindPrevious => Action::SearchPrevious,
        Message::SubmitSearch => Action::SubmitSearch,
        Message::FocusSearch => Action::Focus,
        Message::Find => Action::FocusSearchSoon,
        Message::BodyChanged(text) => Action::EditRequestBody(text.clone()),
        Message::ScriptChanged(text) => Action::EditRequestPostRequestScript(text.clone()),
        Message::SearchFound(start, _) => Action::ScrollToLine(start.line),
        _ => Action::NoAction,
    }
}

/// The request as a message edits it, `None` for a message that does not
/// (see `edited_request`).
pub fn edit_request(message: &Message, current_request: &RequestConfig) -> (r: Option<RequestConfig>)
    ensures
        match edited_request(current_request@, *message) {
            Some(v) => r matches Some(c) && c@ == v,
            None => r is None,
        },
{
    match message {
        Message::HeaderKeyChanged(..) | Message::HeaderValueChanged(..) | Message::AddHeader
        | Message::RemoveHeader(_) | Message::ParamKeyChanged(..) | Message::ParamValueChanged(..)
        | Message::AddParam | Message::RemoveParam(_) => Some(edit_rows(message, current_request)),
        Message::UrlEdited(_) | Message::BodyEdited(_) | Message::MethodChanged(_)
        | Message::BodyFormatChanged(_) | Message::AuthTypeChanged(_)
        | Message::BearerTokenChanged(_) | Message::BasicUsernameChanged(_)
        | Message::BasicPasswordChanged(_) | Message::ApiKeyChanged(_) | Message::ApiKeyHeaderChanged(
            _,
        ) => Some(edit_fields(message, current_request)),
        _ => None,
    }
}

/// The request after a message that edits its header or parameter rows.
fn edit_rows(message: &Message, current_request: &RequestConfig) -> (r: RequestConfig)
    requires
        message is HeaderKeyChanged || message is HeaderValueChanged || message is AddHeader
            || message is RemoveHeader || message is ParamKeyChanged || message is ParamValueChanged
            || message is AddParam || message is RemoveParam,
    ensures
        edited_request(current_request@, *message) == Some(r@),
{
    let mut request = current_request.duplicate();
    match message {
        Message::HeaderKeyChanged(index, key) => {
            request.headers = set_row_key(&current_request.headers, *index, key.clone());
        },
        Message::HeaderValueChanged(index, value) => {
            request.headers = set_row_value(&current_request.headers, *index, value.clone());
        },
        Message::AddHeader => {
            request.headers.push((String::new(), String::new()));
            proof {
                assert(rows_view(request.headers@) =~= with_blank_row(current_request@.headers));
            }
        },
        Message::RemoveHeader(index) => {
            if *index < request.headers.len() {
                request.headers.remove(*index);
            }
            proof {
                assert(rows_view(request.headers@) =~= without_row(
                    current_request@.headers,
                    *index as int,
                ));
            }
        },
        Message::ParamKeyChanged(index, key) => {
            request.params = set_row_key(&current_request.params, *index, key.clone());
        },
        Message::ParamValueChanged(index, value) => {
            request.params = set_row_value(&current_request.params, *index, value.clone());
        },
        Message::AddParam => {
            request.params.push((String::new(), String::new()));
            proof {
                assert(rows_view(request.params@) =~= with_blank_row(current_request@.params));
            }
        },
        Message::RemoveParam(index) => {
            if *index < request.params.len() {
                request.params.remove(*index);
            }
            proof {
                assert(rows_view(request.params@) =~= without_row(
                    current_request@.params,
                    *index as int,
                ));
            }
        },
        _ => {},
    }
    request
}

/// The request after a message that sets its method, body format or
/// authentication.
fn edit_fields(message: &Message, current_request: &RequestConfig) -> (r: RequestConfig)
    requires
        message is UrlEdited || message is BodyEdited || message is MethodChanged
            || message is BodyFormatChanged || message is AuthTypeChanged
            || message is BearerTokenChanged || message is BasicUsernameChanged
            || message is BasicPasswordChanged || message is ApiKeyChanged
            || message is ApiKeyHeaderChanged,
    ensures
        edited_request(current_request@, *message) == Some(r@),
{
    let mut request = current_request.duplicate();
    match message {
        Message::UrlEdited(url) => {
            request.url = url.clone();
        },
        Message::BodyEdited(body) => {
            request.body = body.clone();
        },
        Message::MethodChanged(method) => {
            request.method = *method;
        },
        Message::BodyFormatChanged(format) => {
            request.body_format = *format;
            request.content_type = match format {
                BodyFormat::Json => "application/json".to_owned(),
                BodyFormat::Xml => "application/xml".to_owned(),
                BodyFormat::Text => "text/plain".to_owned(),
                BodyFormat::GraphQL => "application/graphql".to_owned(),
                BodyFormat::NoBody => request.content_type,
            };
        },
        Message::AuthTypeChanged(auth_type) => {
            request.auth_type = *auth_type;
        },
        Message::BearerTokenChanged(token) => {
            request.bearer_token = token.clone();
        },
        Message::BasicUsernameChanged(username) => {
            request.basic_username = username.clone();
        },
        Message::BasicPasswordChanged(password) => {
            request.basic_password = password.clone();
        },
        Message::ApiKeyChanged(api_key) => {
            request.api_key = api_key.clone();
        },
        Message::ApiKeyHeaderChanged(header) => {
            request.api_key_header = header.clone();
        },
        _ => {},
    }
    request
}

/// Rows with the name of row `index` set to `key`.
fn set_row_key(rows: &Vec<(String, String)>, index: usize, key: String) -> (r: Vec<(String, String)>)
    ensures
        rows_view(r@) == with_row_key(rows_view(rows@), index as int, key@),
{
    let mut r = crate::types::copy_rows(rows);
    if index < r.len() {
        let value = r[index].1.clone();
        r.set(index, (key, value));
    }
    proof {
        assert(rows_view(r@) =~= with_row_key(rows_view(rows@), index as int, key@));
    }
    r
}

/// Rows with the value of row `index` set to `value`.
fn set_row_value(rows: &Vec<(String, String)>, index: usize, value: String) -> (r: Vec<(String, String)>)
    ensures
        rows_view(r@) == with_row_value(rows_view(rows@), index as int, value@),
{
    let mut r = crate::types::copy_rows(rows);
    if index < r.len() {
        let key = r[index].0.clone();
        r.set(index, (key, value));
    }
    proof {
        assert(rows_view(r@) =~= with_row_value(rows_view(rows@), index as int, value@));
    }
    r
}

/// The action formatting the request's body asks for (see
/// `body_format_outcome`): JSON that parses comes back pretty-printed,
/// XML and plain text come back trimmed, anything else asks for nothing.
pub fn format_body_action(request: &RequestConfig) -> (r: Action)
    ensures
        body_format_outcome(request@, r),
{
    match request.body_format {
        BodyFormat::Json => match parse_json_value(request.body.as_str()) {
            Ok(value) => match pretty_json(&value) {
                Ok(formatted) => Action::FormatRequestBody(formatted),
                Err(_) => Action::NoAction,
            },
            Err(_) => Action::NoAction,
        },
        BodyFormat::Xml | BodyFormat::Text => {
            let trimmed = trimmed_str(request.body.as_str());
            Action::FormatRequestBody(string_of(trimmed.as_slice()))
        },
        BodyFormat::GraphQL | BodyFormat::NoBody => Action::NoAction,
    }
}

} // verus!
