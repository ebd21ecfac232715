//! Export of a request as a cURL command line.
use vstd::prelude::*;
use crate::json::{json_accepts, json_string_literal, parse_json_value, quote_json_string};
use crate::models::{method_label, method_name, BodyConfig, QueryParamField, RequestAuthoringState};
use crate::text::{
    chars_of, contains_seq, join_with, push_all, push_joined, string_of, trim, trimmed,
};

verus! {

/// `v` with every single quote written as `'\''`.
pub open spec fn escape_quotes(v: Seq<char>) -> Seq<char>
    decreases v.len(),
{
    if v.len() == 0 {
        seq![]
    } else if v.last() == '\'' {
        escape_quotes(v.drop_last()) + seq!['\'', '\\', '\'', '\'']
    } else {
        escape_quotes(v.drop_last()).push(v.last())
    }
}

/// `v` quoted for a POSIX shell: between single quotes, each single quote
/// closing the quotes, escaped, and reopening them.
pub open spec fn shell_quoted(v: Seq<char>) -> Seq<char> {
    seq!['\''] + escape_quotes(v) + seq!['\'']
}

fn quote_chars(v: &Vec<char>) -> (r: Vec<char>)
    ensures
        r@ == shell_quoted(v@),
{
    let mut out: Vec<char> = Vec::new();
    out.push('\'');
    let mut i: usize = 0;
    while i < v.len()
        invariant
            i <= v@.len(),
            out@ == seq!['\''] + escape_quotes(v@.take(i as int)),
        decreases v@.len() - i,
    {
        assert(v@.take(i + 1).drop_last() == v@.take(i as int));
        assert(v@.take(i + 1).last() == v@[i as int]);
        if v[i] == '\'' {
            out.push('\'');
            out.push('\\');
            out.push('\'');
            out.push('\'');
        } else {
            out.push(v[i]);
        }
        i = i + 1;
    }
    assert(v@.take(v@.len() as int) == v@);
    out.push('\'');
    out
}

/// A shell word that stands for `value` (see `shell_quoted`).
pub fn quote_shell_arg(value: &str) -> (r: String)
    ensures
        r@ == shell_quoted(value@),
{
    string_of(&quote_chars(&chars_of(value)))
}

/// The `name=value` pairs of the enabled query parameters with a name,
/// both trimmed.
pub open spec fn query_pairs(params: Seq<QueryParamField>) -> Seq<Seq<char>>
    decreases params.len(),
{
    if params.len() == 0 {
        seq![]
    } else {
        let p = params.last();
        if p.enabled && trim(p.name@).len() > 0 {
            query_pairs(params.drop_last()).push(trim(p.name@) + seq!['='] + trim(p.value@))
        } else {
            query_pairs(params.drop_last())
        }
    }
}

/// The URL with the query parameters appended after `?`, or after `&`
/// when the URL already has a query.
pub open spec fn url_with_query(url: Seq<char>, params: Seq<QueryParamField>) -> Seq<char> {
    let pairs = query_pairs(params);
    if pairs.len() == 0 {
        url
    } else {
        url + (if contains_seq(url, seq!['?']) {
            seq!['&']
        } else {
            seq!['?']
        }) + join_with(pairs, seq!['&'])
    }
}

/// The `-H` words of the enabled headers with a name: `name: value`, the
/// name trimmed, quoted.
pub open spec fn header_words(headers: Seq<QueryParamField>) -> Seq<Seq<char>>
    decreases headers.len(),
{
    if headers.len() == 0 {
        seq![]
    } else {
        let h = headers.last();
        if h.enabled && trim(h.name@).len() > 0 {
            header_words(headers.drop_last()).push("-H"@).push(
                shell_quoted(trim(h.name@) + ": "@ + h.value@),
            )
        } else {
            header_words(headers.drop_last())
        }
    }
}

/// The `name=value` pairs of the form fields with a name (enabled or not),
/// the name trimmed.
pub open spec fn form_payload_pairs(fields: Seq<QueryParamField>) -> Seq<Seq<char>>
    decreases fields.len(),
{
    if fields.len() == 0 {
        seq![]
    } else {
        let f = fields.last();
        if trim(f.name@).len() > 0 {
            form_payload_pairs(fields.drop_last()).push(trim(f.name@) + seq!['='] + f.value@)
        } else {
            form_payload_pairs(fields.drop_last())
        }
    }
}

/// The GraphQL payload: the query as a JSON string, and the variables
/// when they are not blank, as written when they are JSON and as a JSON
/// string otherwise.
pub open spec fn graphql_payload(query: Seq<char>, variables: Option<Seq<char>>) -> Seq<char> {
    "{\"query\":"@ + json_string_literal(query) + match variables {
        Some(v) => if trim(v).len() > 0 {
            ",\"variables\":"@ + if json_accepts(v) {
                v
            } else {
                json_string_literal(v)
            }
        } else {
            seq![]
        },
        None => seq![],
    } + seq!['}']
}

/// The payload sent with `--data-raw`, if the body has one.
pub open spec fn body_payload(body: BodyConfig) -> Option<Seq<char>> {
    match body {
        BodyConfig::NoBody => None,
        BodyConfig::Raw { text, .. } => if text@.len() > 0 {
            Some(text@)
        } else {
            None
        },
        BodyConfig::Json { text } => if text@.len() > 0 {
            Some(text@)
        } else {
            None
        },
        BodyConfig::Xml { text } => if text@.len() > 0 {
            Some(text@)
        } else {
            None
        },
        BodyConfig::Graphql { query, variables_json } => Some(
            graphql_payload(query@, variables_json.deep_view()),
        ),
        BodyConfig::FormUrlEncoded { fields } => {
            let p = join_with(form_payload_pairs(fields@), seq!['&']);
            if p.len() > 0 {
                Some(p)
            } else {
                None
            }
        },
        BodyConfig::Multipart { fields } => {
            let p = join_with(form_payload_pairs(fields@), seq!['&']);
            if p.len() > 0 {
                Some(p)
            } else {
                None
            }
        },
    }
}

/// The words of the cURL command for a request.
pub open spec fn curl_words(request: RequestAuthoringState) -> Seq<Seq<char>> {
    seq!["curl"@, "-X"@, method_name(request.method), shell_quoted(
        url_with_query(request.url@, request.query_params@),
    )] + header_words(request.headers@) + match body_payload(request.body) {
        Some(p) => seq!["--data-raw"@, shell_quoted(p)],
        None => seq![],
    }
}

fn push_word(words: &mut Vec<Vec<char>>, w: Vec<char>)
    ensures
        final(words)@.map_values(|v: Vec<char>| v@) == old(words)@.map_values(|v: Vec<char>| v@).push(w@),
{
    words.push(w);
    assert(words@.map_values(|v: Vec<char>| v@) =~= old(words)@.map_values(|v: Vec<char>| v@).push(w@));
}

fn joined(pieces: &Vec<Vec<char>>, sep: &[char]) -> (r: Vec<char>)
    ensures
        r@ == join_with(pieces@.map_values(|v: Vec<char>| v@), sep@),
{
    let ghost ps = pieces@.map_values(|v: Vec<char>| v@);
    let mut out: Vec<char> = Vec::new();
    let mut i: usize = 0;
    while i < pieces.len()
        invariant
            i <= pieces@.len(),
            ps == pieces@.map_values(|v: Vec<char>| v@),
            out@ == join_with(ps.take(i as int), sep@),
        decreases pieces@.len() - i,
    {
        push_joined(&mut out, &pieces[i], sep, i == 0, Ghost(ps.take(i as int)));
        assert(ps.take(i as int).push(ps[i as int]) == ps.take(i + 1));
        i = i + 1;
    }
    assert(ps.take(pieces@.len() as int) == ps);
    out
}

fn query_pairs_exec(params: &Vec<QueryParamField>) -> (r: Vec<Vec<char>>)
    ensures
        r@.map_values(|v: Vec<char>| v@) == query_pairs(params@),
{
    let mut out: Vec<Vec<char>> = Vec::new();
    let mut i: usize = 0;
    while i < params.len()
        invariant
            i <= params@.len(),
            out@.map_values(|v: Vec<char>| v@) == query_pairs(params@.take(i as int)),
        decreases params@.len() - i,
    {
        let p = &params[i];
        assert(params@.take(i + 1).drop_last() == params@.take(i as int));
        assert(params@.take(i + 1).last() == *p);
        let name = trimmed(&chars_of(p.name.as_str()));
        if p.enabled && name.len() > 0 {
            let mut pair = name;
            pair.push('=');
            let value = trimmed(&chars_of(p.value.as_str()));
            push_all(&mut pair, &value);
            assert(pair@ == trim(p.name@) + seq!['='] + trim(p.value@));
            push_word(&mut out, pair);
        }
        i = i + 1;
    }
    assert(params@.take(params@.len() as int) == params@);
    out
}

fn form_pairs_exec(fields: &Vec<QueryParamField>) -> (r: Vec<Vec<char>>)
    ensures
        r@.map_values(|v: Vec<char>| v@) == form_payload_pairs(fields@),
{
    let mut out: Vec<Vec<char>> = Vec::new();
    let mut i: usize = 0;
    while i < fields.len()
        invariant
            i <= fields@.len(),
            out@.map_values(|v: Vec<char>| v@) == form_payload_pairs(fields@.take(i as int)),
        decreases fields@.len() - i,
    {
        let f = &fields[i];
        assert(fields@.take(i + 1).drop_last() == fields@.take(i as int));
        assert(fields@.take(i + 1).last() == *f);
        let name = trimmed(&chars_of(f.name.as_str()));
        if name.len() > 0 {
            let mut pair = name;
            pair.push('=');
            let value = chars_of(f.value.as_str());
            push_all(&mut pair, &value);
            assert(pair@ == trim(f.name@) + seq!['='] + f.value@);
            push_word(&mut out, pair);
        }
        i = i + 1;
    }
    assert(fields@.take(fields@.len() as int) == fields@);
    out
}

fn graphql_payload_exec(query: &String, variables: &Option<String>) -> (r: Option<Vec<char>>)
    ensures
        r matches Some(p) && p@ == graphql_payload(query@, variables.deep_view()),
{
    let mut out = chars_of("{\"query\":");
    let q = match quote_json_string(query.as_str()) {
        Ok(q) => q,
        Err(_) => {
            return None;
        },
    };
    push_all(&mut out, &chars_of(q.as_str()));
    let ghost lead = out@;
    match variables {
        Some(v) => {
            let vt = trimmed(&chars_of(v.as_str()));
            if vt.len() > 0 {
                push_all(&mut out, &chars_of(",\"variables\":"));
                if parse_json_value(v.as_str()).is_ok() {
                    push_all(&mut out, &chars_of(v.as_str()));
                } else {
                    match quote_json_string(v.as_str()) {
                        Ok(qv) => push_all(&mut out, &chars_of(qv.as_str())),
                        Err(_) => {
                            return None;
                        },
                    }
                }
            }
        },
        None => {},
    }
    out.push('}');
    Some(out)
}

/// The cURL command line for a request: `curl -X METHOD 'url'`, the URL
/// carrying the enabled query parameters, then `-H 'name: value'` for each
/// enabled header with a name, then `--data-raw 'payload'` when the body
/// has a payload (see `curl_words`). Always `Some`: writing the GraphQL
/// strings as JSON does not fail.
pub fn build_curl_for_request(request: &RequestAuthoringState) -> (r: Option<String>)
    ensures
        r matches Some(s) && s@ == join_with(curl_words(*request), seq![' ']),
{
    let mut url = chars_of(request.url.as_str());
    let pairs = query_pairs_exec(&request.query_params);
    if pairs.len() > 0 {
        let q = ['?'];
        let joiner = if crate::text::contains_chars(&url, &q) {
            '&'
        } else {
            '?'
        };
        assert(q@ == seq!['?']);
        url.push(joiner);
        let amp = ['&'];
        let rest = joined(&pairs, &amp);
        assert(amp@ == seq!['&']);
        push_all(&mut url, &rest);
    }
    assert(url@ == url_with_query(request.url@, request.query_params@));
    let mut words: Vec<Vec<char>> = Vec::new();
    push_word(&mut words, chars_of("curl"));
    push_word(&mut words, chars_of("-X"));
    push_word(&mut words, chars_of(method_label(request.method)));
    push_word(&mut words, quote_chars(&url));
    let ghost lead = words@.map_values(|v: Vec<char>| v@);
    assert(lead == seq!["curl"@, "-X"@, method_name(request.method), shell_quoted(
        url_with_query(request.url@, request.query_params@),
    )]);
    let mut i: usize = 0;
    while i < request.headers.len()
        invariant
            i <= request.headers@.len(),
            words@.map_values(|v: Vec<char>| v@) == lead + header_words(request.headers@.take(i as int)),
        decreases request.headers@.len() - i,
    {
        let h = &request.headers[i];
        assert(request.headers@.take(i + 1).drop_last() == request.headers@.take(i as int));
        assert(request.headers@.take(i + 1).last() == *h);
        let name = trimmed(&chars_of(h.name.as_str()));
        if h.enabled && name.len() > 0 {
            push_word(&mut words, chars_of("-H"));
            let mut line = name;
            push_all(&mut line, &chars_of(": "));
            push_all(&mut line, &chars_of(h.value.as_str()));
            assert(line@ == trim(h.name@) + ": "@ + h.value@);
            push_word(&mut words, quote_chars(&line));
        }
        i = i + 1;
    }
    assert(request.headers@.take(request.headers@.len() as int) == request.headers@);
    let payload: Option<Vec<char>> = match &request.body {
        BodyConfig::NoBody => None,
        BodyConfig::Raw { text, .. } => if !text.as_str().is_empty() {
            Some(chars_of(text.as_str()))
        } else {
            None
        },
        BodyConfig::Json { text } => if !text.as_str().is_empty() {
            Some(chars_of(text.as_str()))
        } else {
            None
        },
        BodyConfig::Xml { text } => if !text.as_str().is_empty() {
            Some(chars_of(text.as_str()))
        } else {
            None
        },
        BodyConfig::Graphql { query, variables_json } => match graphql_payload_exec(
            query,
            variables_json,
        ) {
            Some(p) => Some(p),
            None => {
                return None;
            },
        },
        BodyConfig::FormUrlEncoded { fields } => {
            let amp = ['&'];
            let p = joined(&form_pairs_exec(fields), &amp);
            assert(amp@ == seq!['&']);
            if p.len() > 0 {
                Some(p)
            } else {
                None
            }
        },
        BodyConfig::Multipart { fields } => {
            let amp = ['&'];
            let p = joined(&form_pairs_exec(fields), &amp);
            assert(amp@ == seq!['&']);
            if p.len() > 0 {
                Some(p)
            } else {
                None
            }
        },
    };
    let ghost mid = words@.map_values(|v: Vec<char>| v@);
    assert(match payload {
        Some(p) => body_payload(request.body) == Some(p@),
        None => body_payload(request.body) is None,
    });
    match payload {
        Some(p) => {
            push_word(&mut words, chars_of("--data-raw"));
            push_word(&mut words, quote_chars(&p));
        },
        None => {},
    }
    assert(words@.map_values(|v: Vec<char>| v@) == curl_words(*request));
    let space = [' '];
    let out = joined(&words, &space);
    assert(space@ == seq![' ']);
    Some(string_of(&out))
}

/// A raw, JSON or XML body that holds text is sent as it is: the command
/// ends with `--data-raw` and the text, quoted for the shell.
pub proof fn lemma_text_body_is_sent_with_data_raw(request: RequestAuthoringState)
    requires
        match request.body {
            BodyConfig::Raw { text, .. } => text@.len() > 0,
            BodyConfig::Json { text } => text@.len() > 0,
            BodyConfig::Xml { text } => text@.len() > 0,
            _ => false,
        },
    ensures
        ({
            let text = match request.body {
                BodyConfig::Raw { text, .. } => text@,
                BodyConfig::Json { text } => text@,
                BodyConfig::Xml { text } => text@,
                _ => seq![],
            };
            let w = curl_words(request);
            &&& w.len() >= 2
            &&& w[w.len() - 2] == "--data-raw"@
            &&& w[w.len() - 1] == shell_quoted(text)
        }),
{
}

} // verus!
