//! The collection model of the panel front end: requests, each with a
//! method, URL, header and parameter rows, body and authentication, grouped
//! into named collections.
use vstd::prelude::*;

verus! {

/// HTTP methods a request can use.
#[allow(non_camel_case_types)]
#[derive(Debug, Clone, Copy, PartialEq, Eq, Structural)]
pub enum HttpMethod {
    GET,
    POST,
    PUT,
    DELETE,
    PATCH,
    HEAD,
    OPTIONS,
}

/// How a request's body is written.
#[derive(Debug, Clone, Copy, PartialEq, Eq, Structural)]
pub enum BodyFormat {
    Json,
    Xml,
    Text,
    GraphQL,
    NoBody,
}

/// How a request authenticates.
#[derive(Debug, Clone, Copy, PartialEq, Eq, Structural)]
pub enum AuthType {
    NoAuth,
    Bearer,
    Basic,
    ApiKey,
}

/// The tabs of the request editor.
#[derive(Debug, Clone, Copy, PartialEq, Eq, Structural)]
pub enum RequestTab {
    Body,
    Params,
    Headers,
    Auth,
    PostScript,
    Environment,
}

/// What a rename applies to: a collection, or a request in a collection.
#[derive(Debug, Clone, Copy, PartialEq, Eq, Structural)]
pub enum RenameTarget {
    Folder(usize),
    Request(usize, usize),
}

/// A saved request.
#[derive(Debug, Clone)]
pub struct RequestConfig {
    pub name: String,
    pub url: String,
    pub method: HttpMethod,
    pub headers: Vec<(String, String)>,
    pub params: Vec<(String, String)>,
    pub body: String,
    pub body_format: BodyFormat,
    pub content_type: String,
    pub auth_type: AuthType,
    pub bearer_token: String,
    pub basic_username: String,
    pub basic_password: String,
    pub api_key: String,
    pub api_key_header: String,
    pub post_request_script: Option<String>,
    pub collection_index: u32,
    pub request_index: u32,
}

/// A request as the contracts see it: its texts as character sequences.
pub struct RequestConfigView {
    pub name: Seq<char>,
    pub url: Seq<char>,
    pub method: HttpMethod,
    pub headers: Seq<(Seq<char>, Seq<char>)>,
    pub params: Seq<(Seq<char>, Seq<char>)>,
    pub body: Seq<char>,
    pub body_format: BodyFormat,
    pub content_type: Seq<char>,
    pub auth_type: AuthType,
    pub bearer_token: Seq<char>,
    pub basic_username: Seq<char>,
    pub basic_password: Seq<char>,
    pub api_key: Seq<char>,
    pub api_key_header: Seq<char>,
    pub post_request_script: Option<Seq<char>>,
    pub collection_index: u32,
    pub request_index: u32,
}

/// Name/value rows as pairs of character sequences.
pub open spec fn rows_view(rows: Seq<(String, String)>) -> Seq<(Seq<char>, Seq<char>)> {
    rows.map_values(|p: (String, String)| (p.0@, p.1@))
}

/// An optional text as an optional character sequence.
pub open spec fn opt_view(s: Option<String>) -> Option<Seq<char>> {
    match s {
        Some(t) => Some(t@),
        None => None,
    }
}

impl View for RequestConfig {
    type V = RequestConfigView;

    open spec fn view(&self) -> RequestConfigView {
        RequestConfigView {
            name: self.name@,
            url: self.url@,
            method: self.method,
            headers: rows_view(self.headers@),
            params: rows_view(self.params@),
            body: self.body@,
            body_format: self.body_format,
            content_type: self.content_type@,
            auth_type: self.auth_type,
            bearer_token: self.bearer_token@,
            basic_username: self.basic_username@,
            basic_password: self.basic_password@,
            api_key: self.api_key@,
            api_key_header: self.api_key_header@,
            post_request_script: opt_view(self.post_request_script),
            collection_index: self.collection_index,
            request_index: self.request_index,
        }
    }
}

/// The blank request: a GET with every text empty, no rows, no body and no
/// authentication, at position 0 of collection 0.
pub open spec fn blank_request() -> RequestConfigView {
    RequestConfigView {
        name: Seq::empty(),
        url: Seq::empty(),
        method: HttpMethod::GET,
        headers: Seq::empty(),
        params: Seq::empty(),
        body: Seq::empty(),
        body_format: BodyFormat::NoBody,
        content_type: Seq::empty(),
        auth_type: AuthType::NoAuth,
        bearer_token: Seq::empty(),
        basic_username: Seq::empty(),
        basic_password: Seq::empty(),
        api_key: Seq::empty(),
        api_key_header: Seq::empty(),
        post_request_script: None,
        collection_index: 0,
        request_index: 0,
    }
}

impl Default for RequestConfig {
    fn default() -> (r: Self)
        ensures
            r@ == blank_request(),
    {
        let r = RequestConfig {
            name: String::new(),
            url: String::new(),
            method: HttpMethod::GET,
            headers: Vec::new(),
            params: Vec::new(),
            body: String::new(),
            body_format: BodyFormat::NoBody,
            content_type: String::new(),
            auth_type: AuthType::NoAuth,
            bearer_token: String::new(),
            basic_username: String::new(),
            basic_password: String::new(),
            api_key: String::new(),
            api_key_header: String::new(),
            post_request_script: None,
            collection_index: 0,
            request_index: 0,
        };
        assert(rows_view(r.headers@) =~= Seq::empty());
        assert(rows_view(r.params@) =~= Seq::empty());
        r
    }
}

/// A copy of name/value rows.
pub fn copy_rows(rows: &Vec<(String, String)>) -> (r: Vec<(String, String)>)
    ensures
        r@ == rows@,
{
    let mut r: Vec<(String, String)> = Vec::new();
    let mut i: usize = 0;
    while i < rows.len()
        invariant
            i <= rows@.len(),
            r@ == rows@.take(i as int),
        decreases rows@.len() - i,
    {
        let (a, b) = (rows[i].0.clone(), rows[i].1.clone());
        r.push((a, b));
        assert(r@ =~= rows@.take(i + 1));
        i = i + 1;
    }
    assert(rows@.take(rows@.len() as int) =~= rows@);
    r
}

/// A copy of an optional text.
pub fn copy_opt(s: &Option<String>) -> (r: Option<String>)
    ensures
        opt_view(r) == opt_view(*s),
{
    match s {
        Some(t) => Some(t.clone()),
        None => None,
    }
}

impl RequestConfig {
    /// A copy of the request.
    pub fn duplicate(&self) -> (r: Self)
        ensures
            r@ == self@,
    {
        RequestConfig {
            name: self.name.clone(),
            url: self.url.clone(),
            method: self.method,
            headers: copy_rows(&self.headers),
            params: copy_rows(&self.params),
            body: self.body.clone(),
            body_format: self.body_format,
            content_type: self.content_type.clone(),
            auth_type: self.auth_type,
            bearer_token: self.bearer_token.clone(),
            basic_username: self.basic_username.clone(),
            basic_password: self.basic_password.clone(),
            api_key: self.api_key.clone(),
            api_key_header: self.api_key_header.clone(),
            post_request_script: copy_opt(&self.post_request_script),
            collection_index: self.collection_index,
            request_index: self.request_index,
        }
    }
}

/// A named group of requests, shown expanded or collapsed.
#[derive(Debug, Clone)]
pub struct RequestCollection {
    pub name: String,
    pub requests: Vec<RequestConfig>,
    pub expanded: bool,
}

/// A collection as the contracts see it.
pub struct RequestCollectionView {
    pub name: Seq<char>,
    pub requests: Seq<RequestConfigView>,
    pub expanded: bool,
}

impl View for RequestCollection {
    type V = RequestCollectionView;

    open spec fn view(&self) -> RequestCollectionView {
        RequestCollectionView {
            name: self.name@,
            requests: self.requests@.map_values(|r: RequestConfig| r@),
            expanded: self.expanded,
        }
    }
}

impl RequestCollection {
    /// A copy of the collection.
    pub fn duplicate(&self) -> (r: Self)
        ensures
            r@ == self@,
    {
        let mut requests: Vec<RequestConfig> = Vec::new();
        let mut i: usize = 0;
        while i < self.requests.len()
            invariant
                i <= self.requests@.len(),
                requests@.len() == i,
                forall|j: int| 0 <= j < i ==> (#[trigger] requests@[j])@ == self.requests@[j]@,
            decreases self.requests@.len() - i,
        {
            let c = self.requests[i].duplicate();
            requests.push(c);
            i = i + 1;
        }
        assert(requests@.map_values(|r: RequestConfig| r@) =~= self.requests@.map_values(
            |r: RequestConfig| r@,
        ));
        RequestCollection { name: self.name.clone(), requests, expanded: self.expanded }
    }
}

} // verus!
