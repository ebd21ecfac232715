//! Request bodies in the editor: their text, their kind, and the
//! formatting of JSON, XML, GraphQL and form bodies.
use vstd::prelude::*;
use crate::json::{
    json_accepts, json_error_text, json_parse_error, json_pretty, parse_json_value, pretty_json,
};
use crate::models::{BodyConfig, BodyFormatKind, QueryParamField};
use crate::text::{
    chars_of, contains_seq, find_from, find_seq_from, join_lines, join_with,
    lemma_find_from, lowercased, push_all, push_joined, push_range, starts_with,
    starts_with_chars, str_contains, string_of, string_of_range, to_lowercase, trim, trim_bounds,
    trimmed,
};
use crate::xml::{format_xml_or_html, next_index_of, lemma_next_index_of_bounds, xml_format};

verus! {

/// The body kinds offered in the editor's body-format menu.
#[derive(Clone, Copy, Debug, PartialEq, Eq, Structural)]
pub enum RequestBodyFormat {
    NoBody,
    Json,
    Xml,
    Graphql,
    Text,
    FormUrlEncoded,
    Multipart,
}

/// What decides how a body text is formatted: the request's body
/// configuration, or a response's content type.
pub enum BodyFormatHint<'a> {
    FromConfig(&'a BodyConfig),
    FromContentType(Option<&'a str>),
}

/// A name/value row as `name=value`.
pub open spec fn field_line(f: QueryParamField) -> Seq<char> {
    f.name@ + seq!['='] + f.value@
}

/// The rows of a form body, one `name=value` per line.
pub open spec fn fields_text(fields: Seq<QueryParamField>) -> Seq<char> {
    join_lines(fields.map_values(|f: QueryParamField| field_line(f)))
}

/// The GraphQL editor text for a query and its variables.
pub open spec fn graphql_editor_text(query: Seq<char>, variables: Seq<char>) -> Seq<char> {
    "query:\n"@ + query + "\n\nvariables:\n"@ + variables
}

/// The text the body editor shows for a body.
pub open spec fn body_text(body: BodyConfig) -> Seq<char> {
    match body {
        BodyConfig::NoBody => seq![],
        BodyConfig::Raw { text, .. } => text@,
        BodyConfig::Json { text } => text@,
        BodyConfig::Xml { text } => text@,
        BodyConfig::FormUrlEncoded { fields } => fields_text(fields@),
        BodyConfig::Multipart { fields } => fields_text(fields@),
        BodyConfig::Graphql { query, variables_json } => match variables_json {
            Some(v) => if v@.len() > 0 {
                graphql_editor_text(query@, v@)
            } else {
                query@
            },
            None => query@,
        },
    }
}

fn fields_editor_text(fields: &Vec<QueryParamField>) -> (r: Vec<char>)
    ensures
        r@ == fields_text(fields@),
{
    let ghost lines = fields@.map_values(|f: QueryParamField| field_line(f));
    let eq = ['='];
    let nl = ['\n'];
    let mut out: Vec<char> = Vec::new();
    let mut i: usize = 0;
    while i < fields.len()
        invariant
            i <= fields@.len(),
            lines == fields@.map_values(|f: QueryParamField| field_line(f)),
            out@ == join_with(lines.take(i as int), seq!['\n']),
            nl@ == seq!['\n'],
            eq@ == seq!['='],
        decreases fields@.len() - i,
    {
        let mut piece = chars_of(fields[i].name.as_str());
        push_all(&mut piece, &eq);
        let value = chars_of(fields[i].value.as_str());
        push_all(&mut piece, &value);
        assert(piece@ == lines[i as int]);
        push_joined(&mut out, &piece, &nl, i == 0, Ghost(lines.take(i as int)));
        assert(lines.take(i as int).push(lines[i as int]) == lines.take(i + 1));
        i = i + 1;
    }
    assert(lines.take(fields@.len() as int) == lines);
    out
}

/// The text the body editor shows for `body`.
pub fn body_editor_text(body: &BodyConfig) -> (r: String)
    ensures
        r@ == body_text(*body),
{
    match body {
        BodyConfig::NoBody => String::new(),
        BodyConfig::Raw { text, .. } => text.clone(),
        BodyConfig::Json { text } => text.clone(),
        BodyConfig::Xml { text } => text.clone(),
        BodyConfig::FormUrlEncoded { fields } => string_of(&fields_editor_text(fields)),
        BodyConfig::Multipart { fields } => string_of(&fields_editor_text(fields)),
        BodyConfig::Graphql { query, variables_json } => match variables_json {
            Some(variables) => {
                if !variables.as_str().is_empty() {
                    let mut out = chars_of("query:\n");
                    let q = chars_of(query.as_str());
                    push_all(&mut out, &q);
                    let mid = chars_of("\n\nvariables:\n");
                    push_all(&mut out, &mid);
                    let v = chars_of(variables.as_str());
                    push_all(&mut out, &v);
                    string_of(&out)
                } else {
                    query.clone()
                }
            },
            None => query.clone(),
        },
    }
}


/// The menu label of a body kind.
pub open spec fn format_label(format: RequestBodyFormat) -> Seq<char> {
    match format {
        RequestBodyFormat::NoBody => "None"@,
        RequestBodyFormat::Json => "JSON"@,
        RequestBodyFormat::Xml => "XML"@,
        RequestBodyFormat::Graphql => "GraphQL"@,
        RequestBodyFormat::Text => "Text"@,
        RequestBodyFormat::FormUrlEncoded => "Form URL"@,
        RequestBodyFormat::Multipart => "Multipart"@,
    }
}

/// The menu label of a body kind.
pub fn body_format_label(format: RequestBodyFormat) -> (r: &'static str)
    ensures
        r@ == format_label(format),
{
    match format {
        RequestBodyFormat::NoBody => "None",
        RequestBodyFormat::Json => "JSON",
        RequestBodyFormat::Xml => "XML",
        RequestBodyFormat::Graphql => "GraphQL",
        RequestBodyFormat::Text => "Text",
        RequestBodyFormat::FormUrlEncoded => "Form URL",
        RequestBodyFormat::Multipart => "Multipart",
    }
}

/// The label of the body tab: "Body" when there is no body, else the
/// kind's label.
pub fn body_tab_label(format: RequestBodyFormat) -> (r: &'static str)
    ensures
        r@ == (if format == RequestBodyFormat::NoBody {
            "Body"@
        } else {
            format_label(format)
        }),
{
    match format {
        RequestBodyFormat::NoBody => "Body",
        _ => body_format_label(format),
    }
}

/// Every body kind, in menu order.
pub fn supported_body_formats() -> (r: [RequestBodyFormat; 7])
    ensures
        r@ == seq![
            RequestBodyFormat::NoBody,
            RequestBodyFormat::Json,
            RequestBodyFormat::Xml,
            RequestBodyFormat::Graphql,
            RequestBodyFormat::Text,
            RequestBodyFormat::FormUrlEncoded,
            RequestBodyFormat::Multipart,
        ],
{
    let r = [
        RequestBodyFormat::NoBody,
        RequestBodyFormat::Json,
        RequestBodyFormat::Xml,
        RequestBodyFormat::Graphql,
        RequestBodyFormat::Text,
        RequestBodyFormat::FormUrlEncoded,
        RequestBodyFormat::Multipart,
    ];
    assert(r@ =~= seq![
        RequestBodyFormat::NoBody,
        RequestBodyFormat::Json,
        RequestBodyFormat::Xml,
        RequestBodyFormat::Graphql,
        RequestBodyFormat::Text,
        RequestBodyFormat::FormUrlEncoded,
        RequestBodyFormat::Multipart,
    ]);
    r
}

/// The body kind of a body configuration.
pub open spec fn format_of(body: BodyConfig) -> RequestBodyFormat {
    match body {
        BodyConfig::NoBody => RequestBodyFormat::NoBody,
        BodyConfig::Raw { .. } => RequestBodyFormat::Text,
        BodyConfig::Json { .. } => RequestBodyFormat::Json,
        BodyConfig::Xml { .. } => RequestBodyFormat::Xml,
        BodyConfig::FormUrlEncoded { .. } => RequestBodyFormat::FormUrlEncoded,
        BodyConfig::Multipart { .. } => RequestBodyFormat::Multipart,
        BodyConfig::Graphql { .. } => RequestBodyFormat::Graphql,
    }
}

/// The body kind of a body configuration.
pub fn body_format_from_config(body: &BodyConfig) -> (r: RequestBodyFormat)
    ensures
        r == format_of(*body),
{
    match body {
        BodyConfig::NoBody => RequestBodyFormat::NoBody,
        BodyConfig::Raw { .. } => RequestBodyFormat::Text,
        BodyConfig::Json { .. } => RequestBodyFormat::Json,
        BodyConfig::Xml { .. } => RequestBodyFormat::Xml,
        BodyConfig::FormUrlEncoded { .. } => RequestBodyFormat::FormUrlEncoded,
        BodyConfig::Multipart { .. } => RequestBodyFormat::Multipart,
        BodyConfig::Graphql { .. } => RequestBodyFormat::Graphql,
    }
}

/// A form line split at its first `=`: the trimmed name and the value as
/// written; a line without `=` is all name.
pub open spec fn form_pair(line: Seq<char>) -> (Seq<char>, Seq<char>) {
    let k = find_from(line, seq!['='], 0);
    if k >= 0 {
        (trim(line.take(k)), line.skip(k + 1))
    } else {
        (line, seq![])
    }
}

/// The name/value pairs of the form text `t` from index `pos` on: each
/// line, trimmed, that is not blank gives one pair.
pub open spec fn form_pairs_from(t: Seq<char>, pos: int) -> Seq<(Seq<char>, Seq<char>)>
    decreases t.len() + 1 - pos,
{
    if pos < 0 || pos > t.len() {
        seq![]
    } else {
        let e = next_index_of(t, '\n', pos);
        proof {
            lemma_next_index_of_bounds(t, '\n', pos);
        }
        let line = trim(t.subrange(pos, e));
        let head = if line.len() > 0 {
            seq![form_pair(line)]
        } else {
            seq![]
        };
        if e >= t.len() {
            head
        } else {
            head + form_pairs_from(t, e + 1)
        }
    }
}

/// The name/value pairs of a form text.
pub open spec fn form_pairs(t: Seq<char>) -> Seq<(Seq<char>, Seq<char>)> {
    form_pairs_from(t, 0)
}

/// The name/value pairs that a list of rows holds.
pub open spec fn pairs_of(fields: Seq<QueryParamField>) -> Seq<(Seq<char>, Seq<char>)> {
    fields.map_values(|f: QueryParamField| (f.name@, f.value@))
}

/// Every row is enabled and has no description.
pub open spec fn all_fresh(fields: Seq<QueryParamField>) -> bool {
    forall|i: int| 0 <= i < fields.len() ==> #[trigger] fields[i].enabled && fields[i].description is None
}

fn next_newline(t: &Vec<char>, from: usize) -> (r: usize)
    requires
        from <= t@.len(),
    ensures
        r == next_index_of(t@, '\n', from as int),
{
    let mut k = from;
    while k < t.len() && t[k] != '\n'
        invariant
            from <= k <= t@.len(),
            next_index_of(t@, '\n', from as int) == next_index_of(t@, '\n', k as int),
        decreases t@.len() - k,
    {
        k = k + 1;
    }
    k
}

fn form_field_of_line(t: &Vec<char>, a: usize, b: usize) -> (r: QueryParamField)
    requires
        a <= b <= t@.len(),
    ensures
        (r.name@, r.value@) == form_pair(t@.subrange(a as int, b as int)),
        r.enabled,
        r.description is None,
{
    let ghost line = t@.subrange(a as int, b as int);
    let mut k = a;
    while k < b && t[k] != '='
        invariant
            a <= k <= b <= t@.len(),
            forall|j: int| a <= j < k ==> t@[j] != '=',
        decreases b - k,
    {
        k = k + 1;
    }
    proof {
        assert forall|j: int| 0 <= j < k - a implies !crate::text::occurs_at(line, seq!['='], j) by {
            assert(line.subrange(j, j + 1)[0] == t@[a + j]);
        }
        lemma_find_from(line, seq!['='], 0);
        if k < b {
            assert(line.subrange(k - a, k - a + 1) =~= seq!['=']);
            assert(crate::text::occurs_at(line, seq!['='], k - a));
            assert(find_from(line, seq!['='], 0) == k - a);
        } else {
            let f = find_from(line, seq!['='], 0);
            if f != -1 {
                assert(crate::text::occurs_at(line, seq!['='], f));
                assert(false);
            }
        }
    }
    if k < b {
        let (na, nb) = trim_bounds(t, a, k);
        assert(t@.subrange(a as int, k as int) == line.take(k - a));
        assert(t@.subrange(k + 1, b as int) == line.skip(k - a + 1));
        QueryParamField {
            name: string_of_range(t, na, nb),
            value: string_of_range(t, k + 1, b),
            enabled: true,
            description: None,
        }
    } else {
        QueryParamField {
            name: string_of_range(t, a, b),
            value: String::new(),
            enabled: true,
            description: None,
        }
    }
}

/// The rows of a form body written one `name=value` per line: blank lines
/// are skipped, names are trimmed, and a line without `=` is a name with
/// an empty value. Every row is enabled and has no description.
pub fn parse_form_body_fields(text: &str) -> (r: Vec<QueryParamField>)
    ensures
        pairs_of(r@) == form_pairs(text@),
        all_fresh(r@),
{
    let t = chars_of(text);
    let mut out: Vec<QueryParamField> = Vec::new();
    let mut pos: usize = 0;
    loop
        invariant
            pos <= t@.len(),
            t@ == text@,
            pairs_of(out@) + form_pairs_from(t@, pos as int) == form_pairs(t@),
            all_fresh(out@),
        decreases t@.len() - pos,
    {
        let e = next_newline(&t, pos);
        proof {
            lemma_next_index_of_bounds(t@, '\n', pos as int);
        }
        let (a, b) = trim_bounds(&t, pos, e);
        let ghost before = out@;
        let ghost line = trim(t@.subrange(pos as int, e as int));
        let ghost head = if line.len() > 0 {
            seq![form_pair(line)]
        } else {
            seq![]
        };
        assert(form_pairs_from(t@, pos as int) == if e >= t@.len() {
            head
        } else {
            head + form_pairs_from(t@, e + 1)
        });
        if a < b {
            let field = form_field_of_line(&t, a, b);
            out.push(field);
            assert(pairs_of(out@) == pairs_of(before) + seq![form_pair(trim(t@.subrange(pos as int, e as int)))]);
        } else {
            assert(pairs_of(out@) == pairs_of(before));
        }
        assert(line.len() == b - a);
        assert(pairs_of(out@) == pairs_of(before) + head);
        if e >= t.len() {
            assert(pairs_of(before) + head == form_pairs(t@));
            return out;
        }
        assert(pairs_of(before) + (head + form_pairs_from(t@, e + 1)) == pairs_of(out@) + form_pairs_from(t@, e + 1));
        pos = e + 1;
    }
}


/// The marker that opens the GraphQL editor text.
pub open spec fn graphql_query_marker() -> Seq<char> {
    "query:\n"@
}

/// The marker between query and variables in the GraphQL editor text.
pub open spec fn graphql_variables_marker() -> Seq<char> {
    "\n\nvariables:\n"@
}

/// The query and the variables that a GraphQL editor text holds. A text
/// that opens with `query:` and a line break is split at the first
/// variables marker, and the variables, trimmed, count only when not
/// empty; any other text is all query.
pub open spec fn graphql_parts(t: Seq<char>) -> (Seq<char>, Option<Seq<char>>) {
    if starts_with(t, graphql_query_marker()) {
        let rest = t.skip(graphql_query_marker().len() as int);
        let k = find_from(rest, graphql_variables_marker(), 0);
        if k >= 0 {
            let v = trim(rest.skip(k + graphql_variables_marker().len()));
            (rest.take(k), if v.len() > 0 {
                Some(v)
            } else {
                None
            })
        } else {
            (rest, None)
        }
    } else {
        (t, None)
    }
}

fn graphql_split(t: &Vec<char>) -> (r: (Vec<char>, Option<Vec<char>>))
    ensures
        r.0@ == graphql_parts(t@).0,
        match r.1 {
            Some(v) => graphql_parts(t@).1 == Some(v@),
            None => graphql_parts(t@).1 is None,
        },
{
    let head = chars_of("query:\n");
    if !starts_with_chars(t, &head) {
        let mut all: Vec<char> = Vec::new();
        push_range(&mut all, t, 0, t.len());
        assert(t@.subrange(0, t@.len() as int) == t@);
        return (all, None);
    }
    let mut rest: Vec<char> = Vec::new();
    push_range(&mut rest, t, head.len(), t.len());
    assert(rest@ == t@.skip(head@.len() as int));
    let marker = chars_of("\n\nvariables:\n");
    match find_seq_from(&rest, &marker, 0) {
        Some(k) => {
            proof {
                lemma_find_from(rest@, marker@, 0);
            }
            let (a, b) = trim_bounds(&rest, k + marker.len(), rest.len());
            let mut query: Vec<char> = Vec::new();
            push_range(&mut query, &rest, 0, k);
            assert(rest@.subrange(0, k as int) == rest@.take(k as int));
            assert(rest@.subrange(k + marker@.len(), rest@.len() as int) == rest@.skip(
                k + marker@.len(),
            ));
            if a < b {
                let mut vars: Vec<char> = Vec::new();
                push_range(&mut vars, &rest, a, b);
                (query, Some(vars))
            } else {
                (query, None)
            }
        },
        None => (rest, None),
    }
}

/// The query and variables of a GraphQL editor text (see `graphql_parts`).
pub fn parse_graphql_editor_text(text: &str) -> (r: (String, Option<String>))
    ensures
        r.0@ == graphql_parts(text@).0,
        r.1.deep_view() == graphql_parts(text@).1,
{
    let t = chars_of(text);
    let (q, v) = graphql_split(&t);
    let query = string_of(&q);
    match v {
        Some(vars) => (query, Some(string_of(&vars))),
        None => (query, None),
    }
}

/// `r` is a body of kind `format` that holds the editor text `text`:
/// raw, JSON and XML bodies hold it as written, form bodies hold its rows,
/// and GraphQL bodies hold its query and variables.
pub open spec fn holds_text(r: BodyConfig, format: RequestBodyFormat, text: Seq<char>) -> bool {
    &&& format_of(r) == format
    &&& match r {
        BodyConfig::NoBody => true,
        BodyConfig::Raw { text: t, .. } => t@ == text,
        BodyConfig::Json { text: t } => t@ == text,
        BodyConfig::Xml { text: t } => t@ == text,
        BodyConfig::FormUrlEncoded { fields } => pairs_of(fields@) == form_pairs(text) && all_fresh(
            fields@,
        ),
        BodyConfig::Multipart { fields } => pairs_of(fields@) == form_pairs(text) && all_fresh(
            fields@,
        ),
        BodyConfig::Graphql { query, variables_json } => query@ == graphql_parts(text).0
            && variables_json.deep_view() == graphql_parts(text).1,
    }
}

/// The media type of a raw body, as characters.
pub open spec fn raw_media(r: BodyConfig) -> Option<Seq<char>> {
    match r {
        BodyConfig::Raw { media_type, .. } => media_type.deep_view(),
        _ => None,
    }
}

fn graphql_body(text: &str) -> (r: BodyConfig)
    ensures
        holds_text(r, RequestBodyFormat::Graphql, text@),
{
    let (query, variables_json) = parse_graphql_editor_text(text);
    BodyConfig::Graphql { query, variables_json }
}

/// The body that keeps the kind of `current` and holds the edited text:
/// a body of no kind becomes raw text without a media type, and a raw
/// body keeps its media type.
pub fn body_with_updated_text(current: &BodyConfig, text: String) -> (r: BodyConfig)
    ensures
        holds_text(
            r,
            if *current == BodyConfig::NoBody {
                RequestBodyFormat::Text
            } else {
                format_of(*current)
            },
            text@,
        ),
        raw_media(r) == raw_media(*current),
{
    match current {
        BodyConfig::NoBody => BodyConfig::Raw { media_type: None, text },
        BodyConfig::Raw { media_type, .. } => {
            let m = match media_type {
                Some(m) => Some(m.clone()),
                None => None,
            };
            BodyConfig::Raw { media_type: m, text }
        },
        BodyConfig::Json { .. } => BodyConfig::Json { text },
        BodyConfig::Xml { .. } => BodyConfig::Xml { text },
        BodyConfig::FormUrlEncoded { .. } => BodyConfig::FormUrlEncoded {
            fields: parse_form_body_fields(text.as_str()),
        },
        BodyConfig::Multipart { .. } => BodyConfig::Multipart {
            fields: parse_form_body_fields(text.as_str()),
        },
        BodyConfig::Graphql { .. } => graphql_body(text.as_str()),
    }
}

/// The body of kind `format` that holds the editor text; a text body is
/// sent as `text/plain`.
pub fn body_from_format(format: RequestBodyFormat, text: String) -> (r: BodyConfig)
    ensures
        holds_text(r, format, text@),
        raw_media(r) == (if format == RequestBodyFormat::Text {
            Some("text/plain"@)
        } else {
            None::<Seq<char>>
        }),
{
    match format {
        RequestBodyFormat::NoBody => BodyConfig::NoBody,
        RequestBodyFormat::Json => BodyConfig::Json { text },
        RequestBodyFormat::Xml => BodyConfig::Xml { text },
        RequestBodyFormat::Graphql => graphql_body(text.as_str()),
        RequestBodyFormat::Text => BodyConfig::Raw { media_type: Some("text/plain".to_owned()), text },
        RequestBodyFormat::FormUrlEncoded => BodyConfig::FormUrlEncoded {
            fields: parse_form_body_fields(text.as_str()),
        },
        RequestBodyFormat::Multipart => BodyConfig::Multipart {
            fields: parse_form_body_fields(text.as_str()),
        },
    }
}


/// The text put before the parser's message when a JSON body cannot be
/// formatted.
pub open spec fn json_error_prefix() -> Seq<char> {
    "Unable to format JSON body: "@
}

/// The text put before the parser's message when GraphQL variables cannot
/// be formatted.
pub open spec fn graphql_error_prefix() -> Seq<char> {
    "Unable to format GraphQL variables JSON: "@
}

/// The error for markup that holds nothing to lay out.
pub open spec fn xml_error() -> Seq<char> {
    "Unable to format XML/HTML body."@
}

/// The error for a body kind that cannot be formatted.
pub open spec fn unsupported_config_error() -> Seq<char> {
    "Formatting is only supported for JSON, XML, GraphQL, and form bodies."@
}

/// The error for a blank body.
pub open spec fn empty_body_error() -> Seq<char> {
    "Body is empty."@
}

/// The error for a content type that names no known body kind.
pub open spec fn unknown_content_type_error() -> Seq<char> {
    "Unable to format body for the detected content type."@
}

/// A form text laid out again: one trimmed `name=value` per row.
pub open spec fn form_formatted(t: Seq<char>) -> Seq<char> {
    join_lines(
        form_pairs(t).map_values(
            |p: (Seq<char>, Seq<char>)| trim(p.0) + seq!['='] + trim(p.1),
        ),
    )
}

/// What pretty-printing the JSON text `t` gives: the pretty text of the
/// document when `serde_json` accepts it, else `prefix` followed by the
/// parser's error message.
pub open spec fn json_outcome(t: Seq<char>, r: Result<String, String>, prefix: Seq<char>) -> bool {
    if json_accepts(t) {
        r matches Ok(o) && o@ == json_pretty(t)
    } else {
        r matches Err(e) && e@ == prefix + json_parse_error(t)
    }
}

/// What formatting a GraphQL editor text gives: the trimmed query, and
/// after the variables marker the pretty-printed variables when there are
/// any.
pub open spec fn graphql_outcome(t: Seq<char>, r: Result<String, String>) -> bool {
    let q = trim(graphql_parts(t).0);
    match graphql_parts(t).1 {
        None => r matches Ok(o) && o@ == q,
        Some(v) => {
            let vt = trim(v);
            if vt.len() == 0 {
                r matches Ok(o) && o@ == q
            } else if json_accepts(vt) {
                r matches Ok(o) && o@ == graphql_query_marker() + q + graphql_variables_marker()
                    + json_pretty(vt)
            } else {
                r matches Err(e) && e@ == graphql_error_prefix() + json_parse_error(vt)
            }
        },
    }
}

/// What formatting the text `t` as a body of kind `kind` gives.
pub open spec fn kind_outcome(t: Seq<char>, kind: BodyFormatKind, r: Result<String, String>) -> bool {
    match kind {
        BodyFormatKind::Json => json_outcome(t, r, json_error_prefix()),
        BodyFormatKind::Xml => match xml_format(t) {
            Some(s) => r matches Ok(o) && o@ == s,
            None => r matches Err(e) && e@ == xml_error(),
        },
        BodyFormatKind::Graphql => graphql_outcome(t, r),
        BodyFormatKind::Form => r matches Ok(o) && o@ == form_formatted(t),
    }
}

fn error_with(prefix: &str, error: &serde_json::Error) -> (r: String)
    ensures
        starts_with(r@, prefix@),
{
    let mut out = chars_of(prefix);
    let detail = chars_of(json_error_text(error).as_str());
    push_all(&mut out, &detail);
    assert(out@.take(prefix@.len() as int) == prefix@);
    string_of(&out)
}

fn prefixed(prefix: &str, detail: &str) -> (r: String)
    ensures
        r@ == prefix@ + detail@,
{
    let mut out = chars_of(prefix);
    push_all(&mut out, &chars_of(detail));
    string_of(&out)
}

fn pretty_json_text(text: &str, prefix: &str) -> (r: Result<String, String>)
    ensures
        json_outcome(text@, r, prefix@),
{
    match parse_json_value(text) {
        Ok(value) => match pretty_json(&value) {
            Ok(s) => Ok(s),
            Err(e) => Err(error_with(prefix, &e)),
        },
        Err(message) => Err(prefixed(prefix, message.as_str())),
    }
}

fn form_text_formatted(text: &str) -> (r: Vec<char>)
    ensures
        r@ == form_formatted(text@),
{
    let fields = parse_form_body_fields(text);
    let ghost pieces = form_pairs(text@).map_values(
        |p: (Seq<char>, Seq<char>)| trim(p.0) + seq!['='] + trim(p.1),
    );
    let nl = ['\n'];
    let eq = ['='];
    let mut out: Vec<char> = Vec::new();
    let mut i: usize = 0;
    while i < fields.len()
        invariant
            i <= fields@.len(),
            pairs_of(fields@) == form_pairs(text@),
            pieces == form_pairs(text@).map_values(
                |p: (Seq<char>, Seq<char>)| trim(p.0) + seq!['='] + trim(p.1),
            ),
            out@ == join_with(pieces.take(i as int), seq!['\n']),
            nl@ == seq!['\n'],
            eq@ == seq!['='],
        decreases fields@.len() - i,
    {
        let name = chars_of(fields[i].name.as_str());
        let value = chars_of(fields[i].value.as_str());
        let mut piece = trimmed(&name);
        push_all(&mut piece, &eq);
        let tv = trimmed(&value);
        push_all(&mut piece, &tv);
        assert(pairs_of(fields@)[i as int] == (fields@[i as int].name@, fields@[i as int].value@));
        assert(piece@ == pieces[i as int]);
        push_joined(&mut out, &piece, &nl, i == 0, Ghost(pieces.take(i as int)));
        assert(pieces.take(i as int).push(pieces[i as int]) == pieces.take(i + 1));
        i = i + 1;
    }
    assert(pieces.take(fields@.len() as int) == pieces);
    out
}

fn format_graphql_text(text: &str) -> (r: Result<String, String>)
    ensures
        graphql_outcome(text@, r),
{
    let t = chars_of(text);
    let (q, v) = graphql_split(&t);
    let query = trimmed(&q);
    match v {
        None => Ok(string_of(&query)),
        Some(vars) => {
            let vt = trimmed(&vars);
            if vt.len() == 0 {
                Ok(string_of(&query))
            } else {
                let vs = string_of(&vt);
                match pretty_json_text(vs.as_str(), "Unable to format GraphQL variables JSON: ") {
                    Ok(pretty) => {
                        let mut out = chars_of("query:\n");
                        push_all(&mut out, &query);
                        let mid = chars_of("\n\nvariables:\n");
                        push_all(&mut out, &mid);
                        let p = chars_of(pretty.as_str());
                        push_all(&mut out, &p);
                        assert(out@ =~= graphql_query_marker() + trim(graphql_parts(text@).0)
                            + graphql_variables_marker() + json_pretty(vt@));
                        Ok(string_of(&out))
                    },
                    Err(e) => Err(e),
                }
            }
        },
    }
}

/// Formats `text` as a body of kind `kind` (see `kind_outcome`).
pub fn format_body_text_by_kind(text: &str, kind: BodyFormatKind) -> (r: Result<String, String>)
    ensures
        kind_outcome(text@, kind, r),
{
    match kind {
        BodyFormatKind::Json => pretty_json_text(text, "Unable to format JSON body: "),
        BodyFormatKind::Xml => match format_xml_or_html(text) {
            Some(s) => Ok(s),
            None => Err("Unable to format XML/HTML body.".to_owned()),
        },
        BodyFormatKind::Graphql => format_graphql_text(text),
        BodyFormatKind::Form => Ok(string_of(&form_text_formatted(text))),
    }
}

/// The kind a body configuration is formatted as, if it can be.
pub open spec fn config_kind(body: BodyConfig) -> Option<BodyFormatKind> {
    match body {
        BodyConfig::Json { .. } => Some(BodyFormatKind::Json),
        BodyConfig::Xml { .. } => Some(BodyFormatKind::Xml),
        BodyConfig::Graphql { .. } => Some(BodyFormatKind::Graphql),
        BodyConfig::FormUrlEncoded { .. } => Some(BodyFormatKind::Form),
        BodyConfig::Multipart { .. } => Some(BodyFormatKind::Form),
        _ => None,
    }
}

/// What formatting `t` for the body configuration `body` gives.
pub open spec fn config_outcome(t: Seq<char>, body: BodyConfig, r: Result<String, String>) -> bool {
    match config_kind(body) {
        Some(kind) => kind_outcome(t, kind, r),
        None => r matches Err(e) && e@ == unsupported_config_error(),
    }
}

/// Formats `text` by the kind of `body_config`; raw bodies and bodies of
/// no kind cannot be formatted.
pub fn format_body_text_from_config(text: &str, body_config: &BodyConfig) -> (r: Result<String, String>)
    ensures
        config_outcome(text@, *body_config, r),
{
    let kind = match body_config {
        BodyConfig::Json { .. } => BodyFormatKind::Json,
        BodyConfig::Xml { .. } => BodyFormatKind::Xml,
        BodyConfig::Graphql { .. } => BodyFormatKind::Graphql,
        BodyConfig::FormUrlEncoded { .. } => BodyFormatKind::Form,
        BodyConfig::Multipart { .. } => BodyFormatKind::Form,
        _ => {
            return Err(
                "Formatting is only supported for JSON, XML, GraphQL, and form bodies.".to_owned(),
            );
        },
    };
    format_body_text_by_kind(text, kind)
}

/// The body kind that a trimmed body text and its lower-cased content type
/// point to: JSON or GraphQL content types and texts that open with `{`
/// or `[` are JSON (GraphQL when the type says so), XML and HTML types are
/// markup, form and multipart types are forms, and an untyped text that
/// opens with `query:` is GraphQL.
pub open spec fn detected_kind(t: Seq<char>, ct: Seq<char>) -> Option<BodyFormatKind> {
    if contains_seq(ct, "json"@) || contains_seq(ct, "graphql"@) || starts_with(t, seq!['{'])
        || starts_with(t, seq!['[']) {
        if contains_seq(ct, "graphql"@) {
            Some(BodyFormatKind::Graphql)
        } else {
            Some(BodyFormatKind::Json)
        }
    } else if contains_seq(ct, "xml"@) || contains_seq(ct, "html"@) {
        Some(BodyFormatKind::Xml)
    } else if contains_seq(ct, "x-www-form-urlencoded"@) || contains_seq(ct, "multipart"@) {
        Some(BodyFormatKind::Form)
    } else if starts_with(t, "query:"@) {
        Some(BodyFormatKind::Graphql)
    } else {
        None
    }
}

/// The body kind for a trimmed body text and a lower-cased content type
/// (see `detected_kind`).
pub fn detect_body_kind(trimmed_body: &str, content_type_lower: &str) -> (r: Option<BodyFormatKind>)
    ensures
        r == detected_kind(trimmed_body@, content_type_lower@),
{
    let t = chars_of(trimmed_body);
    let brace = ['{'];
    let bracket = ['['];
    assert(brace@ == seq!['{']);
    assert(bracket@ == seq!['[']);
    if str_contains(content_type_lower, "json") || str_contains(content_type_lower, "graphql")
        || starts_with_chars(&t, &brace) || starts_with_chars(&t, &bracket) {
        if str_contains(content_type_lower, "graphql") {
            Some(BodyFormatKind::Graphql)
        } else {
            Some(BodyFormatKind::Json)
        }
    } else if str_contains(content_type_lower, "xml") || str_contains(content_type_lower, "html") {
        Some(BodyFormatKind::Xml)
    } else if str_contains(content_type_lower, "x-www-form-urlencoded") || str_contains(
        content_type_lower,
        "multipart",
    ) {
        Some(BodyFormatKind::Form)
    } else {
        let q = chars_of("query:");
        if starts_with_chars(&t, &q) {
            Some(BodyFormatKind::Graphql)
        } else {
            None
        }
    }
}

/// An optional string slice as optional text.
pub open spec fn opt_str_view(o: Option<&str>) -> Option<Seq<char>> {
    match o {
        Some(c) => Some(c@),
        None => None,
    }
}

/// The lower-cased content type; no content type reads as empty.
pub open spec fn lowered_content_type(content_type: Option<Seq<char>>) -> Seq<char> {
    match content_type {
        Some(c) => lowercased(c),
        None => seq![],
    }
}

/// What formatting a response body of the given content type gives: a
/// blank body is an error, a type that names no known kind is an error,
/// and otherwise the trimmed body is formatted by the kind detected.
pub open spec fn content_type_outcome(
    body: Seq<char>,
    content_type: Option<Seq<char>>,
    r: Result<String, String>,
) -> bool {
    let t = trim(body);
    if t.len() == 0 {
        r matches Err(e) && e@ == empty_body_error()
    } else {
        match detected_kind(t, lowered_content_type(content_type)) {
            Some(kind) => kind_outcome(t, kind, r),
            None => r matches Err(e) && e@ == unknown_content_type_error(),
        }
    }
}

/// Formats a response body by its content type (see `content_type_outcome`).
pub fn format_body_text_from_content_type(body: &str, content_type: Option<&str>) -> (r: Result<String, String>)
    ensures
        content_type_outcome(body@, opt_str_view(content_type), r),
{
    let t = crate::text::trimmed_str(body);
    if t.len() == 0 {
        return Err("Body is empty.".to_owned());
    }
    let ct = match content_type {
        Some(c) => to_lowercase(c),
        None => String::new(),
    };
    let ts = string_of(&t);
    match detect_body_kind(ts.as_str(), ct.as_str()) {
        Some(kind) => format_body_text_by_kind(ts.as_str(), kind),
        None => Err("Unable to format body for the detected content type.".to_owned()),
    }
}

/// Formats a body text by the hint given: a request's body configuration
/// or a response's content type.
pub fn format_body_text(text: &str, hint: BodyFormatHint<'_>) -> (r: Result<String, String>)
    ensures
        match hint {
            BodyFormatHint::FromConfig(body) => config_outcome(text@, *body, r),
            BodyFormatHint::FromContentType(ct) => content_type_outcome(text@, opt_str_view(ct), r),
        },
{
    match hint {
        BodyFormatHint::FromConfig(body) => format_body_text_from_config(text, body),
        BodyFormatHint::FromContentType(content_type) => format_body_text_from_content_type(
            text,
            content_type,
        ),
    }
}

/// The editor language of a request body.
pub fn body_editor_language(body_config: &BodyConfig) -> (r: &'static str)
    ensures
        r@ == match *body_config {
            BodyConfig::Json { .. } => "json"@,
            BodyConfig::Xml { .. } => "html"@,
            BodyConfig::Graphql { .. } => "graphql"@,
            _ => "text"@,
        },
{
    match body_config {
        BodyConfig::Json { .. } => "json",
        BodyConfig::Xml { .. } => "html",
        BodyConfig::Graphql { .. } => "graphql",
        _ => "text",
    }
}

/// The editor language for a lower-cased response content type.
pub open spec fn language_for(ct: Seq<char>) -> Seq<char> {
    if contains_seq(ct, "graphql"@) {
        "graphql"@
    } else if contains_seq(ct, "json"@) {
        "json"@
    } else if contains_seq(ct, "xml"@) || contains_seq(ct, "html"@) {
        "html"@
    } else {
        "text"@
    }
}

/// The editor language for a lower-cased response content type.
pub fn language_for_content_type(content_type_lower: &str) -> (r: &'static str)
    ensures
        r@ == language_for(content_type_lower@),
{
    if str_contains(content_type_lower, "graphql") {
        "graphql"
    } else if str_contains(content_type_lower, "json") {
        "json"
    } else if str_contains(content_type_lower, "xml") || str_contains(content_type_lower, "html") {
        "html"
    } else {
        "text"
    }
}

/// The editor language of a response body, by its content type.
pub fn response_body_editor_language(content_type: Option<&str>) -> (r: &'static str)
    ensures
        r@ == language_for(lowered_content_type(opt_str_view(content_type))),
{
    let ct = match content_type {
        Some(c) => to_lowercase(c),
        None => String::new(),
    };
    language_for_content_type(ct.as_str())
}

/// The GraphQL editor text is read back as the query and variables it was
/// written from, when the query holds no variables marker (not even one
/// that runs on into the marker written after it) and the variables are
/// trimmed and not empty.
pub proof fn lemma_graphql_editor_text_roundtrip(query: Seq<char>, variables: Seq<char>)
    requires
        forall|j: int|
            0 <= j < query.len() ==> !crate::text::occurs_at(
                query + graphql_variables_marker(),
                graphql_variables_marker(),
                j,
            ),
        trim(variables) == variables,
        variables.len() > 0,
    ensures
        graphql_parts(graphql_editor_text(query, variables)) == (query, Some(variables)),
{
    let m = graphql_query_marker();
    let mv = graphql_variables_marker();
    let t = graphql_editor_text(query, variables);
    assert(t == m + (query + mv + variables));
    assert(t.take(m.len() as int) == m);
    let rest = t.skip(m.len() as int);
    assert(rest == query + mv + variables);
    assert forall|j: int| 0 <= j < query.len() implies !crate::text::occurs_at(rest, mv, j) by {
        if crate::text::occurs_at(rest, mv, j) {
            assert(rest.subrange(j, j + mv.len()) == (query + mv).subrange(j, j + mv.len()));
            assert(crate::text::occurs_at(query + mv, mv, j));
        }
    }
    assert(rest.subrange(query.len() as int, (query.len() + mv.len()) as int) == mv);
    assert(crate::text::occurs_at(rest, mv, query.len() as int));
    lemma_find_from(rest, mv, 0);
    let k = find_from(rest, mv, 0);
    assert(k != -1);
    assert(crate::text::occurs_at(rest, mv, k));
    if k < query.len() {
        assert(!crate::text::occurs_at(rest, mv, k));
    }
    assert(k == query.len());
    assert(rest.take(k) == query);
    assert(rest.skip(k + mv.len()) == variables);
}

/// A JSON, XML or raw body's editor text, put back into a body of the
/// same kind, is that body's text again.
pub proof fn lemma_text_body_editor_roundtrip(body: BodyConfig)
    requires
        body matches BodyConfig::Json { .. } || body matches BodyConfig::Xml { .. }
            || body matches BodyConfig::Raw { .. },
    ensures
        forall|r: BodyConfig|
            holds_text(r, format_of(body), body_text(body)) ==> #[trigger] body_text(r) == body_text(
                body,
            ),
{
}


/// What finishing a body format does to the request.
#[derive(Debug, Clone)]
pub enum FormatOutcome {
    /// The body was edited while it was being formatted; nothing applies.
    BodyChanged,
    /// Formatting failed, with this message.
    Failed(String),
    /// The formatted text is the text already there.
    Unchanged,
    /// The body takes the formatted text.
    Apply { body: BodyConfig, text: String },
}

/// The message shown when formatting fails with `error`.
pub open spec fn format_failure_message(error: Seq<char>) -> Seq<char> {
    "Failed to format request body: "@ + error
}

/// What a finished body format comes to: the body formatted from
/// `source_text` is applied to `current_body` only while the editor still
/// shows `source_text` and the result differs from it; a failure reports
/// its error.
pub fn format_outcome(
    source_text: &str,
    latest_text: &str,
    result: Result<String, String>,
    current_body: &BodyConfig,
) -> (r: FormatOutcome)
    ensures
        latest_text@ != source_text@ ==> r is BodyChanged,
        latest_text@ == source_text@ ==> match result {
            Err(e) => r matches FormatOutcome::Failed(m) && m@ == format_failure_message(e@),
            Ok(f) => if f@ == latest_text@ {
                r is Unchanged
            } else {
                r matches FormatOutcome::Apply { body, text } && text@ == f@ && holds_text(
                    body,
                    if *current_body == BodyConfig::NoBody {
                        RequestBodyFormat::Text
                    } else {
                        format_of(*current_body)
                    },
                    f@,
                ) && raw_media(body) == raw_media(*current_body)
            },
        },
{
    if latest_text.to_owned() != source_text.to_owned() {
        return FormatOutcome::BodyChanged;
    }
    match result {
        Err(e) => {
            let mut m = "Failed to format request body: ".to_owned();
            m.append(e.as_str());
            FormatOutcome::Failed(m)
        },
        Ok(f) => {
            if f == latest_text.to_owned() {
                FormatOutcome::Unchanged
            } else {
                let body = body_with_updated_text(current_body, f.clone());
                FormatOutcome::Apply { body, text: f }
            }
        },
    }
}

} // verus!
