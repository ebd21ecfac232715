//! What the response pane shows: the class of a status code, the body as
//! displayed, and when reformatting the body changes it.
use vstd::prelude::*;
use crate::body::{
    BodyFormatHint, content_type_outcome, format_body_text, language_for, lowered_content_type,
    opt_str_view, response_body_editor_language,
};
use crate::text::{
    chars_of, contains_seq, decimal, join_with, lowercased, push_all, push_decimal, push_joined,
    starts_with, starts_with_chars, str_contains, string_of, to_lowercase, trim, trimmed_str,
};

verus! {

/// The class of an HTTP status, by which the status is coloured.
#[derive(Debug, Clone, Copy, PartialEq, Eq, Structural)]
pub enum StatusClass {
    Informational,
    Success,
    Redirection,
    Error,
    Unknown,
}

/// The class of a status: 1xx informational, 2xx success, 3xx
/// redirection, 4xx and 5xx error; anything else, or no status, unknown.
pub open spec fn status_class_of(status: Option<u16>) -> StatusClass {
    match status {
        Some(s) => if 200 <= s <= 299 {
            StatusClass::Success
        } else if 300 <= s <= 399 {
            StatusClass::Redirection
        } else if 400 <= s <= 599 {
            StatusClass::Error
        } else if 100 <= s <= 199 {
            StatusClass::Informational
        } else {
            StatusClass::Unknown
        },
        None => StatusClass::Unknown,
    }
}

/// The class of a status (see `status_class_of`).
pub fn status_class(status: Option<u16>) -> (r: StatusClass)
    ensures
        r == status_class_of(status),
{
    match status {
        Some(s) => if 200 <= s && s <= 299 {
            StatusClass::Success
        } else if 300 <= s && s <= 399 {
            StatusClass::Redirection
        } else if 400 <= s && s <= 599 {
            StatusClass::Error
        } else if 100 <= s && s <= 199 {
            StatusClass::Informational
        } else {
            StatusClass::Unknown
        },
        None => StatusClass::Unknown,
    }
}

/// The response body as shown: formatted by its content type when
/// automatic formatting is on and formatting succeeds, else as received.
pub fn response_body_for_display(body: &str, content_type: Option<&str>, auto_format: bool) -> (r:
    String)
    ensures
        !auto_format ==> r@ == body@,
        auto_format ==> exists|f: Result<String, String>|
            #[trigger] content_type_outcome(body@, opt_str_view(content_type), f) && r@ == match f {
                Ok(s) => s@,
                Err(_) => body@,
            },
{
    if !auto_format {
        return body.to_owned();
    }
    let f = format_body_text(body, BodyFormatHint::FromContentType(content_type));
    match f {
        Ok(s) => s,
        Err(_) => body.to_owned(),
    }
}

/// The text that reformatting the response body puts in the editor:
/// `None`, leaving the editor as it is, when the body is blank or comes out
/// unchanged; failed formatting leaves it unchanged.
pub fn reformatted_response_body(current: &str, content_type: Option<&str>) -> (r: Option<String>)
    ensures
        trim(current@).len() == 0 ==> r is None,
        trim(current@).len() != 0 ==> exists|f: Result<String, String>|
            #[trigger] content_type_outcome(current@, opt_str_view(content_type), f) && match f {
                Ok(s) => if s@ == current@ {
                    r is None
                } else {
                    r matches Some(t) && t@ == s@
                },
                Err(_) => r is None,
            },
{
    let t = trimmed_str(current);
    if t.len() == 0 {
        return None;
    }
    let f = format_body_text(current, BodyFormatHint::FromContentType(content_type));
    match f {
        Ok(s) => {
            if s == current.to_owned() {
                None
            } else {
                Some(s)
            }
        },
        Err(_) => None,
    }
}

/// The body-format label for a lower-cased content type: JSON, XML (for
/// XML and HTML), GraphQL, or Text (for `text/` types and anything naming
/// plain); none for other types.
pub open spec fn body_label_for(ct: Seq<char>) -> Option<Seq<char>> {
    if contains_seq(ct, "json"@) {
        Some("JSON"@)
    } else if contains_seq(ct, "xml"@) || contains_seq(ct, "html"@) {
        Some("XML"@)
    } else if contains_seq(ct, "graphql"@) {
        Some("GraphQL"@)
    } else if starts_with(ct, "text/"@) || contains_seq(ct, "plain"@) {
        Some("Text"@)
    } else {
        None
    }
}

/// The body-format label for a lower-cased content type (see
/// `body_label_for`).
pub fn body_label_for_content_type(content_type_lower: &str) -> (r: Option<&'static str>)
    ensures
        match body_label_for(content_type_lower@) {
            Some(l) => r matches Some(s) && s@ == l,
            None => r is None,
        },
{
    if str_contains(content_type_lower, "json") {
        Some("JSON")
    } else if str_contains(content_type_lower, "xml") || str_contains(content_type_lower, "html") {
        Some("XML")
    } else if str_contains(content_type_lower, "graphql") {
        Some("GraphQL")
    } else if starts_with_chars(&chars_of(content_type_lower), chars_of("text/").as_slice())
        || str_contains(content_type_lower, "plain") {
        Some("Text")
    } else {
        None
    }
}

/// The body-format label for a content type, lower-cased first (see
/// `body_label_for`).
pub fn body_label_from_content_type(content_type: &str) -> (r: Option<&'static str>)
    ensures
        match body_label_for(lowercased(content_type@)) {
            Some(l) => r matches Some(s) && s@ == l,
            None => r is None,
        },
{
    let ct = to_lowercase(content_type);
    body_label_for_content_type(ct.as_str())
}

/// A stored response, as the response pane shows it.
#[derive(Debug, Clone)]
pub struct ResponseSnapshot {
    pub status: String,
    pub status_code: Option<u16>,
    pub time: String,
    pub size: String,
    pub headers_raw: String,
    pub content_type: Option<String>,
    pub body: String,
}

/// What the response pane shows: the status line, the raw headers, the
/// content type, the body in its editor and the editor's language.
#[derive(Debug, Clone)]
pub struct ResponsePane {
    pub status: String,
    pub status_code: Option<u16>,
    pub time: String,
    pub size: String,
    pub headers_raw: String,
    pub content_type: Option<String>,
    pub body: String,
    pub language: &'static str,
}

/// The placeholder shown where there is no value.
pub open spec fn placeholder() -> Seq<char> {
    "\u{2014}"@
}

/// The content type as a plain optional string.
pub open spec fn opt_chars(o: Option<String>) -> Option<Seq<char>> {
    match o {
        Some(s) => Some(s@),
        None => None,
    }
}

/// Whether the pane shows no response: dashes, no status code, headers,
/// content type or body.
pub open spec fn shows_nothing(p: ResponsePane) -> bool {
    &&& p.status@ == placeholder()
    &&& p.status_code is None
    &&& p.time@ == placeholder()
    &&& p.size@ == placeholder()
    &&& p.headers_raw@.len() == 0
    &&& p.content_type is None
    &&& p.body@.len() == 0
}

/// Whether the pane shows `snapshot`: its status line, headers and content
/// type as stored, its body as displayed (see `response_body_for_display`)
/// and the editor language of its content type.
pub open spec fn shows_snapshot(p: ResponsePane, snapshot: ResponseSnapshot, auto_format: bool) -> bool {
    &&& p.status@ == snapshot.status@
    &&& p.status_code == snapshot.status_code
    &&& p.time@ == snapshot.time@
    &&& p.size@ == snapshot.size@
    &&& p.headers_raw@ == snapshot.headers_raw@
    &&& opt_chars(p.content_type) == opt_chars(snapshot.content_type)
    &&& p.language@ == language_for(lowered_content_type(opt_chars(snapshot.content_type)))
    &&& (!auto_format ==> p.body@ == snapshot.body@)
    &&& (auto_format ==> exists|f: Result<String, String>|
        #[trigger] content_type_outcome(snapshot.body@, opt_chars(snapshot.content_type), f)
            && p.body@ == match f {
            Ok(s) => s@,
            Err(_) => snapshot.body@,
        })
}

fn copy_opt_string(o: &Option<String>) -> (r: Option<String>)
    ensures
        opt_chars(r) == opt_chars(*o),
{
    match o {
        Some(s) => Some(s.clone()),
        None => None,
    }
}

impl ResponsePane {
    /// An empty pane, with a plain-text editor.
    pub fn new() -> (r: Self)
        ensures
            shows_nothing(r),
            r.language@ == "text"@,
    {
        ResponsePane {
            status: "\u{2014}".to_owned(),
            status_code: None,
            time: "\u{2014}".to_owned(),
            size: "\u{2014}".to_owned(),
            headers_raw: String::new(),
            content_type: None,
            body: String::new(),
            language: "text",
        }
    }

    /// Clears what the pane shows; the editor keeps its language.
    pub fn clear(&mut self)
        ensures
            shows_nothing(*final(self)),
            final(self).language == old(self).language,
    {
        self.status = "\u{2014}".to_owned();
        self.status_code = None;
        self.time = "\u{2014}".to_owned();
        self.size = "\u{2014}".to_owned();
        self.headers_raw = String::new();
        self.content_type = None;
        self.body = String::new();
    }

    /// Shows a stored response, formatting its body when `auto_format` is on.
    pub fn show_snapshot(&mut self, snapshot: &ResponseSnapshot, auto_format: bool)
        ensures
            shows_snapshot(*final(self), *snapshot, auto_format),
    {
        let ct: Option<&str> = match &snapshot.content_type {
            Some(c) => Some(c.as_str()),
            None => None,
        };
        self.body = response_body_for_display(snapshot.body.as_str(), ct, auto_format);
        self.language = response_body_editor_language(ct);
        self.status = snapshot.status.clone();
        self.status_code = snapshot.status_code;
        self.time = snapshot.time.clone();
        self.size = snapshot.size.clone();
        self.headers_raw = snapshot.headers_raw.clone();
        self.content_type = copy_opt_string(&snapshot.content_type);
    }

    /// Shows that the selected request's run was canceled: "Canceled" and
    /// dashes; the headers and body stay.
    pub fn show_canceled(&mut self)
        ensures
            final(self).status@ == "Canceled"@,
            final(self).status_code is None,
            final(self).time@ == placeholder(),
            final(self).size@ == placeholder(),
            final(self).headers_raw == old(self).headers_raw,
            final(self).content_type == old(self).content_type,
            final(self).body == old(self).body,
            final(self).language == old(self).language,
    {
        self.status = "Canceled".to_owned();
        self.status_code = None;
        self.time = "\u{2014}".to_owned();
        self.size = "\u{2014}".to_owned();
    }

    /// Puts a status summary (status, code, time, size) in the status line.
    pub fn show_summary(&mut self, summary: (String, Option<u16>, String, String))
        ensures
            final(self).status == summary.0,
            final(self).status_code == summary.1,
            final(self).time == summary.2,
            final(self).size == summary.3,
            final(self).headers_raw == old(self).headers_raw,
            final(self).content_type == old(self).content_type,
            final(self).body == old(self).body,
            final(self).language == old(self).language,
    {
        self.status = summary.0;
        self.status_code = summary.1;
        self.time = summary.2;
        self.size = summary.3;
    }
}

/// The status line of a response: the code and its reason phrase, or the
/// bare code when the code has no reason phrase.
pub open spec fn status_line(code: u16, reason: Option<Seq<char>>) -> Seq<char> {
    match reason {
        Some(t) => decimal(code as nat) + seq![' '] + t,
        None => decimal(code as nat),
    }
}

/// The status line of a response (see `status_line`).
pub fn status_text(code: u16, reason: Option<&str>) -> (r: String)
    ensures
        r@ == status_line(code, opt_str_view(reason)),
{
    let mut out = String::new();
    push_decimal(&mut out, code as u128);
    match reason {
        Some(t) => {
            let mut cs = chars_of(out.as_str());
            cs.push(' ');
            push_all(&mut cs, &chars_of(t));
            string_of(&cs)
        },
        None => out,
    }
}

/// One header as shown: `name: value`.
pub open spec fn header_line(h: (String, String)) -> Seq<char> {
    h.0@ + ": "@ + h.1@
}

/// The headers of a response as shown: one `name: value` per line.
pub open spec fn headers_text(headers: Seq<(String, String)>) -> Seq<char> {
    join_with(headers.map_values(|h: (String, String)| header_line(h)), seq!['\n'])
}

/// The headers of a response as shown (see `headers_text`).
pub fn raw_headers_text(headers: &[(String, String)]) -> (r: String)
    ensures
        r@ == headers_text(headers@),
{
    let ghost lines = headers@.map_values(|h: (String, String)| header_line(h));
    let sep = ['\n'];
    let mut out: Vec<char> = Vec::new();
    let mut i: usize = 0;
    while i < headers.len()
        invariant
            i <= headers@.len(),
            lines == headers@.map_values(|h: (String, String)| header_line(h)),
            out@ == join_with(lines.take(i as int), seq!['\n']),
            sep@ == seq!['\n'],
        decreases headers@.len() - i,
    {
        let mut line = chars_of(headers[i].0.as_str());
        push_all(&mut line, &chars_of(": "));
        push_all(&mut line, &chars_of(headers[i].1.as_str()));
        assert(line@ == lines[i as int]);
        push_joined(&mut out, &line, &sep, i == 0, Ghost(lines.take(i as int)));
        assert(lines.take(i as int).push(lines[i as int]) == lines.take(i + 1));
        i = i + 1;
    }
    assert(lines.take(headers@.len() as int) == lines);
    string_of(&out)
}

} // verus!
