//! What goes on the wire when a request is sent: the method, the trimmed
//! URL, the query pairs and headers of the enabled rows, the
//! authentication and the body payload, decided from the request being
//! edited before any connection is made.
use vstd::prelude::*;
use crate::auth::default_api_key_name;
use crate::json::{json_string_literal, quote_json_string};
use crate::models::{ApiKeyLocation, AuthConfig, BodyConfig, HttpMethod, QueryParamField, RequestAuthoringState};
use crate::text::{chars_of, push_all, string_of, trim, trimmed_str};

verus! {

/// A name/value pair as text.
pub open spec fn pair_view(p: (String, String)) -> (Seq<char>, Seq<char>) {
    (p.0@, p.1@)
}

/// Name/value pairs as text.
pub open spec fn pairs_view(v: Seq<(String, String)>) -> Seq<(Seq<char>, Seq<char>)> {
    v.map_values(|p: (String, String)| pair_view(p))
}

/// The pairs sent for a table of rows: each enabled row whose name is not
/// blank, its name trimmed and its value as written, in order.
pub open spec fn enabled_trimmed_pairs(rows: Seq<QueryParamField>) -> Seq<(Seq<char>, Seq<char>)>
    decreases rows.len(),
{
    if rows.len() == 0 {
        seq![]
    } else {
        let r = rows.last();
        if r.enabled && trim(r.name@).len() > 0 {
            enabled_trimmed_pairs(rows.drop_last()).push((trim(r.name@), r.value@))
        } else {
            enabled_trimmed_pairs(rows.drop_last())
        }
    }
}

/// The API key sent, with where it goes: the key name (`X-API-Key` when
/// none is set) trimmed, and the value as written, when both are not
/// blank; no key otherwise, or when the request has no API-key
/// authentication.
pub open spec fn api_key(auth: AuthConfig) -> Option<(Seq<char>, Seq<char>, ApiKeyLocation)> {
    match auth {
        AuthConfig::ApiKey { key, value, location } => {
            let k = trim(
                match key {
                    Some(k) => k@,
                    None => default_api_key_name(),
                },
            );
            match value {
                Some(v) => if k.len() > 0 && trim(v@).len() > 0 {
                    Some((k, v@, location))
                } else {
                    None
                },
                None => None,
            }
        },
        _ => None,
    }
}

/// The API-key pair added to the query, if the key goes there.
pub open spec fn api_key_query_pair(auth: AuthConfig) -> Option<(Seq<char>, Seq<char>)> {
    match api_key(auth) {
        Some((k, v, ApiKeyLocation::Query)) => Some((k, v)),
        _ => None,
    }
}

/// The API-key header, if the key goes in a header.
pub open spec fn api_key_header_pair(auth: AuthConfig) -> Seq<(Seq<char>, Seq<char>)> {
    match api_key(auth) {
        Some((k, v, ApiKeyLocation::Header)) => seq![(k, v)],
        _ => seq![],
    }
}

/// The `Content-Type` header a body brings: its media type for a raw body
/// that has one that is not blank; `application/json` for JSON and
/// GraphQL; `application/xml` for XML; none otherwise (a form's type is
/// set by the form encoding itself).
pub open spec fn body_content_type(body: BodyConfig) -> Seq<(Seq<char>, Seq<char>)> {
    match body {
        BodyConfig::Raw { media_type, .. } => match media_type {
            Some(m) => if trim(m@).len() > 0 {
                seq![("Content-Type"@, m@)]
            } else {
                seq![]
            },
            None => seq![],
        },
        BodyConfig::Json { .. } => seq![("Content-Type"@, "application/json"@)],
        BodyConfig::Xml { .. } => seq![("Content-Type"@, "application/xml"@)],
        BodyConfig::Graphql { .. } => seq![("Content-Type"@, "application/json"@)],
        _ => seq![],
    }
}

/// The bearer token sent: the token trimmed, when it is set and not blank.
pub open spec fn bearer_token(auth: AuthConfig) -> Option<Seq<char>> {
    match auth {
        AuthConfig::Bearer { token: Some(t) } => if trim(t@).len() > 0 {
            Some(trim(t@))
        } else {
            None
        },
        _ => None,
    }
}

/// The basic credentials sent: the user name (empty when unset) and the
/// password, which is none when it is unset or empty.
pub open spec fn basic_credentials(auth: AuthConfig) -> Option<(Seq<char>, Option<Seq<char>>)> {
    match auth {
        AuthConfig::Basic { username, password } => {
            let user = match username {
                Some(u) => u@,
                None => seq![],
            };
            let pass = match password {
                Some(p) => p@,
                None => seq![],
            };
            Some(
                (
                    user,
                    if pass.len() > 0 {
                        Some(pass)
                    } else {
                        None
                    },
                ),
            )
        },
        _ => None,
    }
}

/// The JSON document sent for a GraphQL body: the query as a JSON string,
/// then the variables text as written when it is not blank.
pub open spec fn graphql_request_payload(query: Seq<char>, variables: Option<Seq<char>>) -> Seq<char> {
    "{\"query\":"@ + json_string_literal(query) + match variables {
        Some(v) => if trim(v).len() > 0 {
            ",\"variables\":"@ + v
        } else {
            seq![]
        },
        None => seq![],
    } + seq!['}']
}

/// The body sent with a request.
#[derive(Debug, Clone)]
pub enum OutgoingBody {
    NoBody,
    /// A payload sent as it stands.
    Text(String),
    /// Pairs sent URL-encoded as a form.
    Form(Vec<(String, String)>),
    /// Pairs sent as the text parts of a multipart form.
    Multipart(Vec<(String, String)>),
}

/// An outgoing body as text.
pub enum OutgoingBodyView {
    NoBody,
    Text(Seq<char>),
    Form(Seq<(Seq<char>, Seq<char>)>),
    Multipart(Seq<(Seq<char>, Seq<char>)>),
}

impl View for OutgoingBody {
    type V = OutgoingBodyView;

    open spec fn view(&self) -> OutgoingBodyView {
        match self {
            OutgoingBody::NoBody => OutgoingBodyView::NoBody,
            OutgoingBody::Text(t) => OutgoingBodyView::Text(t@),
            OutgoingBody::Form(p) => OutgoingBodyView::Form(pairs_view(p@)),
            OutgoingBody::Multipart(p) => OutgoingBodyView::Multipart(pairs_view(p@)),
        }
    }
}

/// The body sent for a body configuration: raw, JSON and XML text as
/// written; the GraphQL document (see `graphql_request_payload`); the
/// enabled form fields with a name, names trimmed; nothing for no body.
pub open spec fn outgoing_body(body: BodyConfig) -> OutgoingBodyView {
    match body {
        BodyConfig::NoBody => OutgoingBodyView::NoBody,
        BodyConfig::Raw { text, .. } => OutgoingBodyView::Text(text@),
        BodyConfig::Json { text } => OutgoingBodyView::Text(text@),
        BodyConfig::Xml { text } => OutgoingBodyView::Text(text@),
        BodyConfig::Graphql { query, variables_json } => OutgoingBodyView::Text(
            graphql_request_payload(query@, variables_json.deep_view()),
        ),
        BodyConfig::FormUrlEncoded { fields } => OutgoingBodyView::Form(
            enabled_trimmed_pairs(fields@),
        ),
        BodyConfig::Multipart { fields } => OutgoingBodyView::Multipart(
            enabled_trimmed_pairs(fields@),
        ),
    }
}

/// Everything sent for a request. The query pairs go first; an API key
/// for the query is then added with the pairs again (the query is given
/// twice, once without the key and once with it).
pub struct OutgoingRequest {
    pub method: HttpMethod,
    pub url: String,
    pub query: Vec<(String, String)>,
    pub api_key_query: Option<(String, String)>,
    pub headers: Vec<(String, String)>,
    pub bearer: Option<String>,
    pub basic: Option<(String, Option<String>)>,
    pub body: OutgoingBody,
}

fn push_pair(out: &mut Vec<(String, String)>, name: String, value: String)
    ensures
        pairs_view(final(out)@) == pairs_view(old(out)@).push((name@, value@)),
{
    out.push((name, value));
    assert(pairs_view(out@) =~= pairs_view(old(out)@).push((name@, value@)));
}

/// The pairs of the enabled rows with a name (see `enabled_trimmed_pairs`).
fn enabled_pairs(rows: &Vec<QueryParamField>) -> (r: Vec<(String, String)>)
    ensures
        pairs_view(r@) == enabled_trimmed_pairs(rows@),
{
    let mut out: Vec<(String, String)> = Vec::new();
    let mut i: usize = 0;
    while i < rows.len()
        invariant
            i <= rows@.len(),
            pairs_view(out@) == enabled_trimmed_pairs(rows@.take(i as int)),
        decreases rows@.len() - i,
    {
        let row = &rows[i];
        assert(rows@.take(i + 1).drop_last() == rows@.take(i as int));
        assert(rows@.take(i + 1).last() == *row);
        let name = trimmed_str(row.name.as_str());
        if row.enabled && name.len() > 0 {
            push_pair(&mut out, string_of(&name), row.value.clone());
        }
        i = i + 1;
    }
    assert(rows@.take(rows@.len() as int) == rows@);
    out
}

/// The API key sent, if any (see `api_key`).
fn api_key_of(auth: &AuthConfig) -> (r: Option<(String, String, ApiKeyLocation)>)
    ensures
        match api_key(*auth) {
            Some((k, v, l)) => r matches Some(x) && x.0@ == k && x.1@ == v && x.2 == l,
            None => r is None,
        },
{
    match auth {
        AuthConfig::ApiKey { key, value, location } => {
            let k = match key {
                Some(k) => trimmed_str(k.as_str()),
                None => trimmed_str("X-API-Key"),
            };
            match value {
                Some(v) => {
                    if k.len() > 0 && trimmed_str(v.as_str()).len() > 0 {
                        Some((string_of(&k), v.clone(), *location))
                    } else {
                        None
                    }
                },
                None => None,
            }
        },
        _ => None,
    }
}

/// The bearer token sent, if any (see `bearer_token`).
fn bearer_of(auth: &AuthConfig) -> (r: Option<String>)
    ensures
        match bearer_token(*auth) {
            Some(t) => r matches Some(s) && s@ == t,
            None => r is None,
        },
{
    match auth {
        AuthConfig::Bearer { token: Some(t) } => {
            let tt = trimmed_str(t.as_str());
            if tt.len() > 0 {
                Some(string_of(&tt))
            } else {
                None
            }
        },
        _ => None,
    }
}

/// The basic credentials sent, if any (see `basic_credentials`).
fn basic_of(auth: &AuthConfig) -> (r: Option<(String, Option<String>)>)
    ensures
        match basic_credentials(*auth) {
            Some((u, p)) => r matches Some(x) && x.0@ == u && x.1.deep_view() == p,
            None => r is None,
        },
{
    match auth {
        AuthConfig::Basic { username, password } => {
            let user = match username {
                Some(u) => u.clone(),
                None => String::new(),
            };
            let pass = match password {
                Some(p) => p.clone(),
                None => String::new(),
            };
            let pass_opt = if pass.as_str().unicode_len() > 0 {
                Some(pass)
            } else {
                None
            };
            Some((user, pass_opt))
        },
        _ => None,
    }
}

/// The GraphQL document sent (see `graphql_request_payload`).
fn graphql_payload_of(query: &String, variables: &Option<String>) -> (r: String)
    ensures
        r@ == graphql_request_payload(query@, variables.deep_view()),
{
    let mut out = chars_of("{\"query\":");
    let q = match quote_json_string(query.as_str()) {
        Ok(q) => q,
        Err(_) => "\"\"".to_owned(),
    };
    push_all(&mut out, &chars_of(q.as_str()));
    match variables {
        Some(v) => {
            if trimmed_str(v.as_str()).len() > 0 {
                push_all(&mut out, &chars_of(",\"variables\":"));
                push_all(&mut out, &chars_of(v.as_str()));
            }
        },
        None => {},
    }
    out.push('}');
    string_of(&out)
}

/// The body sent (see `outgoing_body`).
fn body_of(body: &BodyConfig) -> (r: OutgoingBody)
    ensures
        r@ == outgoing_body(*body),
{
    match body {
        BodyConfig::NoBody => OutgoingBody::NoBody,
        BodyConfig::Raw { text, .. } => OutgoingBody::Text(text.clone()),
        BodyConfig::Json { text } => OutgoingBody::Text(text.clone()),
        BodyConfig::Xml { text } => OutgoingBody::Text(text.clone()),
        BodyConfig::Graphql { query, variables_json } => OutgoingBody::Text(
            graphql_payload_of(query, variables_json),
        ),
        BodyConfig::FormUrlEncoded { fields } => OutgoingBody::Form(enabled_pairs(fields)),
        BodyConfig::Multipart { fields } => OutgoingBody::Multipart(enabled_pairs(fields)),
    }
}

/// The `Content-Type` header a body brings (see `body_content_type`).
fn content_type_of(body: &BodyConfig) -> (r: Vec<(String, String)>)
    ensures
        pairs_view(r@) == body_content_type(*body),
{
    let mut out: Vec<(String, String)> = Vec::new();
    match body {
        BodyConfig::Raw { media_type: Some(m), .. } => {
            if trimmed_str(m.as_str()).len() > 0 {
                push_pair(&mut out, "Content-Type".to_owned(), m.clone());
            }
        },
        BodyConfig::Json { .. } => push_pair(
            &mut out,
            "Content-Type".to_owned(),
            "application/json".to_owned(),
        ),
        BodyConfig::Xml { .. } => push_pair(
            &mut out,
            "Content-Type".to_owned(),
            "application/xml".to_owned(),
        ),
        BodyConfig::Graphql { .. } => push_pair(
            &mut out,
            "Content-Type".to_owned(),
            "application/json".to_owned(),
        ),
        _ => {},
    }
    out
}

/// What is sent for a request: its method; its URL trimmed; the enabled
/// query parameters with a name (names trimmed), and the API key when it
/// goes in the query; the enabled headers with a name (names trimmed),
/// then the API key when it goes in a header, then the body's content
/// type; the bearer token or basic credentials; and the body payload.
pub fn outgoing_request(request: &RequestAuthoringState) -> (r: OutgoingRequest)
    ensures
        r.method == request.method,
        r.url@ == trim(request.url@),
        pairs_view(r.query@) == enabled_trimmed_pairs(request.query_params@),
        match api_key_query_pair(request.auth) {
            Some(p) => r.api_key_query matches Some(x) && pair_view(x) == p,
            None => r.api_key_query is None,
        },
        pairs_view(r.headers@) == enabled_trimmed_pairs(request.headers@) + api_key_header_pair(
            request.auth,
        ) + body_content_type(request.body),
        match bearer_token(request.auth) {
            Some(t) => r.bearer matches Some(s) && s@ == t,
            None => r.bearer is None,
        },
        match basic_credentials(request.auth) {
            Some((u, p)) => r.basic matches Some(x) && x.0@ == u && x.1.deep_view() == p,
            None => r.basic is None,
        },
        r.body@ == outgoing_body(request.body),
{
    let url = string_of(&trimmed_str(request.url.as_str()));
    let query = enabled_pairs(&request.query_params);
    let mut headers = enabled_pairs(&request.headers);
    let ghost base = pairs_view(headers@);
    let mut api_key_query: Option<(String, String)> = None;
    match api_key_of(&request.auth) {
        Some((k, v, location)) => match location {
            ApiKeyLocation::Header => push_pair(&mut headers, k, v),
            ApiKeyLocation::Query => {
                api_key_query = Some((k, v));
            },
        },
        None => {},
    }
    assert(pairs_view(headers@) == base + api_key_header_pair(request.auth));
    let ghost with_key = pairs_view(headers@);
    let ct = content_type_of(&request.body);
    let mut i: usize = 0;
    while i < ct.len()
        invariant
            i <= ct@.len(),
            pairs_view(headers@) == with_key + pairs_view(ct@).take(i as int),
        decreases ct@.len() - i,
    {
        let (n, v) = &ct[i];
        push_pair(&mut headers, n.clone(), v.clone());
        assert(pairs_view(ct@).take(i + 1) =~= pairs_view(ct@).take(i as int).push(
            pair_view(ct@[i as int]),
        ));
        i = i + 1;
    }
    assert(pairs_view(ct@).take(ct@.len() as int) =~= pairs_view(ct@));
    OutgoingRequest {
        method: request.method,
        url,
        query,
        api_key_query,
        headers,
        bearer: bearer_of(&request.auth),
        basic: basic_of(&request.auth),
        body: body_of(&request.body),
    }
}

/// A raw, JSON or XML body goes out exactly as written.
pub proof fn lemma_text_body_goes_out_as_written(body: BodyConfig)
    requires
        body is Raw || body is Json || body is Xml,
    ensures
        outgoing_body(body) == OutgoingBodyView::Text(
            match body {
                BodyConfig::Raw { text, .. } => text@,
                BodyConfig::Json { text } => text@,
                BodyConfig::Xml { text } => text@,
                _ => seq![],
            },
        ),
{
}

} // verus!
