//! The request data that the editor works on.
use vstd::prelude::*;

verus! {

/// A name/value row: a query parameter, a header or a form field.
#[derive(Debug, Clone, PartialEq, Eq)]
pub struct QueryParamField {
    pub name: String,
    pub value: String,
    pub enabled: bool,
    pub description: Option<String>,
}

/// The body of a request, by kind.
#[derive(Debug, Clone, PartialEq, Eq)]
pub enum BodyConfig {
    NoBody,
    Raw { media_type: Option<String>, text: String },
    Json { text: String },
    Xml { text: String },
    Graphql { query: String, variables_json: Option<String> },
    FormUrlEncoded { fields: Vec<QueryParamField> },
    Multipart { fields: Vec<QueryParamField> },
}

/// The kinds of body that the formatter knows how to lay out.
#[derive(Debug, Clone, Copy, PartialEq, Eq, Structural)]
pub enum BodyFormatKind {
    Json,
    Xml,
    Graphql,
    Form,
}

/// HTTP methods a request can use.
#[derive(Debug, Clone, Copy, PartialEq, Eq, Structural)]
pub enum HttpMethod {
    Get,
    Post,
    Put,
    Delete,
    Patch,
    Head,
    Options,
    Query,
}

/// Where an API key is sent.
#[derive(Debug, Clone, Copy, PartialEq, Eq, Structural)]
pub enum ApiKeyLocation {
    Header,
    Query,
}

/// The authentication of a request.
#[derive(Debug, Clone, PartialEq, Eq)]
pub enum AuthConfig {
    NoAuth,
    Bearer { token: Option<String> },
    Basic { username: Option<String>, password: Option<String> },
    ApiKey { key: Option<String>, value: Option<String>, location: ApiKeyLocation },
}

/// One variable of an environment.
#[derive(Debug, Clone, PartialEq, Eq)]
pub struct EnvironmentVariable {
    pub name: String,
    pub value: String,
    pub enabled: bool,
    pub description: Option<String>,
}

/// The request being edited.
#[derive(Debug, Clone, PartialEq, Eq)]
pub struct RequestAuthoringState {
    pub method: HttpMethod,
    pub url: String,
    pub headers: Vec<QueryParamField>,
    pub query_params: Vec<QueryParamField>,
    pub auth: AuthConfig,
    pub body: BodyConfig,
    pub post_script: Option<String>,
}

impl Default for RequestAuthoringState {
    /// An empty GET request without headers, parameters, authentication,
    /// body or script.
    fn default() -> (r: Self)
        ensures
            r.method == HttpMethod::Get,
            r.url@ == Seq::<char>::empty(),
            r.headers@.len() == 0,
            r.query_params@.len() == 0,
            r.auth == AuthConfig::NoAuth,
            r.body == BodyConfig::NoBody,
            r.post_script is None,
    {
        RequestAuthoringState {
            method: HttpMethod::Get,
            url: String::new(),
            headers: Vec::new(),
            query_params: Vec::new(),
            auth: AuthConfig::NoAuth,
            body: BodyConfig::NoBody,
            post_script: None,
        }
    }
}

/// The name of an HTTP method as it is sent.
pub open spec fn method_name(method: HttpMethod) -> Seq<char> {
    match method {
        HttpMethod::Get => "GET"@,
        HttpMethod::Post => "POST"@,
        HttpMethod::Put => "PUT"@,
        HttpMethod::Delete => "DELETE"@,
        HttpMethod::Patch => "PATCH"@,
        HttpMethod::Head => "HEAD"@,
        HttpMethod::Options => "OPTIONS"@,
        HttpMethod::Query => "QUERY"@,
    }
}

/// The name of an HTTP method as it is sent.
pub fn method_label(method: HttpMethod) -> (r: &'static str)
    ensures
        r@ == method_name(method),
{
    match method {
        HttpMethod::Get => "GET",
        HttpMethod::Post => "POST",
        HttpMethod::Put => "PUT",
        HttpMethod::Delete => "DELETE",
        HttpMethod::Patch => "PATCH",
        HttpMethod::Head => "HEAD",
        HttpMethod::Options => "OPTIONS",
        HttpMethod::Query => "QUERY",
    }
}

/// Every HTTP method, in menu order.
pub fn supported_http_methods() -> (r: [HttpMethod; 8])
    ensures
        r@ == seq![
            HttpMethod::Get,
            HttpMethod::Post,
            HttpMethod::Put,
            HttpMethod::Delete,
            HttpMethod::Patch,
            HttpMethod::Head,
            HttpMethod::Options,
            HttpMethod::Query,
        ],
{
    let r = [
        HttpMethod::Get,
        HttpMethod::Post,
        HttpMethod::Put,
        HttpMethod::Delete,
        HttpMethod::Patch,
        HttpMethod::Head,
        HttpMethod::Options,
        HttpMethod::Query,
    ];
    assert(r@ =~= seq![
        HttpMethod::Get,
        HttpMethod::Post,
        HttpMethod::Put,
        HttpMethod::Delete,
        HttpMethod::Patch,
        HttpMethod::Head,
        HttpMethod::Options,
        HttpMethod::Query,
    ]);
    r
}

/// Deletes row `index` of a header or parameter table: the last row left
/// is emptied (name and value) rather than removed; an index past the end
/// changes nothing. Returns whether the index named a row.
pub fn delete_field_row(rows: &mut Vec<QueryParamField>, index: usize) -> (r: bool)
    ensures
        r == (index < old(rows)@.len()),
        index >= old(rows)@.len() ==> final(rows)@ == old(rows)@,
        index < old(rows)@.len() && old(rows)@.len() == 1 ==> {
            &&& final(rows)@.len() == 1
            &&& final(rows)@[0].name@ == Seq::<char>::empty()
            &&& final(rows)@[0].value@ == Seq::<char>::empty()
            &&& final(rows)@[0].enabled == old(rows)@[0].enabled
            &&& final(rows)@[0].description == old(rows)@[0].description
        },
        index < old(rows)@.len() && old(rows)@.len() > 1 ==> final(rows)@ == old(rows)@.remove(
            index as int,
        ),
{
    if index >= rows.len() {
        return false;
    }
    if rows.len() == 1 {
        let enabled = rows[0].enabled;
        let description = match &rows[0].description {
            Some(d) => Some(d.clone()),
            None => None,
        };
        rows.set(0, QueryParamField { name: String::new(), value: String::new(), enabled, description });
    } else {
        rows.remove(index);
    }
    true
}

/// Focusing a field of the last row of a header or parameter table adds a
/// blank, enabled row after it, so there is always a row to type into;
/// focusing another row changes nothing. Returns whether a row was added.
pub fn grow_rows_on_focus(rows: &mut Vec<QueryParamField>, index: usize) -> (added: bool)
    ensures
        added == (index as int + 1 == old(rows)@.len()),
        !added ==> final(rows)@ == old(rows)@,
        added ==> {
            &&& final(rows)@.len() == old(rows)@.len() + 1
            &&& final(rows)@.take(old(rows)@.len() as int) == old(rows)@
            &&& final(rows)@.last().name@.len() == 0
            &&& final(rows)@.last().value@.len() == 0
            &&& final(rows)@.last().enabled
            &&& final(rows)@.last().description is None
        },
{
    if rows.len() == 0 || index != rows.len() - 1 {
        return false;
    }
    rows.push(QueryParamField { name: String::new(), value: String::new(), enabled: true, description: None });
    assert(rows@.take(old(rows)@.len() as int) =~= old(rows)@);
    true
}

} // verus!
